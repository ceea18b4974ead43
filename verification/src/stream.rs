//! Byte-range negotiation for streamed media.

use crate::http::Status;
use vstd::prelude::*;

verus! {

/// How much of a media stream can be read.
///
/// `available` is the number of bytes that are ready now, `total` the final
/// length once it is known.
#[derive(Clone, Copy, Debug, PartialEq, Eq)]
pub struct Size {
    pub available: u64,
    pub total: Option<u64>,
}

/// One entry of a `Range: bytes=...` header.
#[derive(Clone, Copy, Debug, PartialEq, Eq)]
pub enum ByteRangeSpec {
    /// `first-last`, both inclusive.
    FromTo(u64, u64),
    /// `first-`
    AllFrom(u64),
    /// `-length`, the final `length` bytes.
    Last(u64),
}

/// The inclusive span of bytes that a range entry selects from a stream of
/// which `available` bytes are ready, or `None` where the entry cannot be
/// served as a partial response.
pub open spec fn span_of(spec: ByteRangeSpec, available: u64) -> Option<(u64, u64)> {
    match spec {
        ByteRangeSpec::FromTo(first, last) => if first < available && first <= last {
            Some((first, if last < available { last } else { (available - 1) as u64 }))
        } else {
            None
        },
        ByteRangeSpec::AllFrom(first) => if first < available {
            Some((first, (available - 1) as u64))
        } else {
            None
        },
        ByteRangeSpec::Last(_) => None,
    }
}

/// Computes [`span_of`].
pub fn clamp_span(spec: ByteRangeSpec, available: u64) -> (span: Option<(u64, u64)>)
    ensures
        span == span_of(spec, available),
        span matches Some((first, last)) ==> first <= last < available,
{
    match spec {
        ByteRangeSpec::FromTo(first, last) => {
            if first < available && first <= last {
                if last < available {
                    Some((first, last))
                } else {
                    Some((first, available - 1))
                }
            } else {
                None
            }
        },
        ByteRangeSpec::AllFrom(first) => {
            if first < available {
                Some((first, available - 1))
            } else {
                None
            }
        },
        ByteRangeSpec::Last(_) => None,
    }
}

/// A `Range` header, as far as it was understood.
#[derive(Debug)]
pub enum Range {
    /// `bytes=...`, with its entries in the order given.
    Bytes(Vec<ByteRangeSpec>),
    /// A range in any other unit.
    Unregistered,
}

/// What a [`Range`] holds.
pub ghost enum RangeView {
    Bytes(Seq<ByteRangeSpec>),
    Unregistered,
}

impl View for Range {
    type V = RangeView;

    open spec fn view(&self) -> RangeView {
        match self {
            Range::Bytes(specs) => RangeView::Bytes(specs@),
            Range::Unregistered => RangeView::Unregistered,
        }
    }
}

/// The view of a `Range` header that may be absent.
pub open spec fn header_view(range: Option<Range>) -> Option<RangeView> {
    match range {
        Some(r) => Some(r@),
        None => None,
    }
}

/// The span that a request asks for: that of the first entry of a `bytes`
/// range, if it can be served. All further entries are ignored.
pub open spec fn requested_span(range: Option<RangeView>, available: u64) -> Option<(u64, u64)> {
    match range {
        Some(RangeView::Bytes(specs)) => if specs.len() > 0 {
            span_of(specs[0], available)
        } else {
            None
        },
        _ => None,
    }
}

/// Which bytes of the stream make up the body of a response.
#[derive(Clone, Copy, Debug, PartialEq, Eq)]
pub enum BodySource {
    /// The whole stream, from its first byte to its end.
    All,
    /// The bytes from `start` up to `end`, which is not included.
    Span { start: u64, end: u64 },
}

/// A `Content-Range: bytes first-last/length` header; the length is written
/// `*` while it is unknown.
#[derive(Clone, Copy, Debug, PartialEq, Eq)]
pub struct ContentRange {
    pub first: u64,
    pub last: u64,
    pub instance_length: Option<u64>,
}

/// How to answer a request for a stream: status, headers and which bytes to
/// send.
#[derive(Clone, Copy, Debug, PartialEq, Eq)]
pub struct StreamPlan {
    pub status: Status,
    pub content_range: Option<ContentRange>,
    pub content_length: Option<u64>,
    pub body: BodySource,
}

/// The answer to a request with the given `Range` header for a stream of
/// the given size.
///
/// A span that can be served is answered with 206, the span itself and its
/// length. Everything else, a range that starts behind the bytes that are
/// ready included, is answered with 200 and the whole stream, with a length
/// only if the total is known.
pub open spec fn plan_of(range: Option<RangeView>, size: Size) -> StreamPlan {
    match requested_span(range, size.available) {
        Some((first, last)) => StreamPlan {
            status: Status::PartialContent,
            content_range: Some(ContentRange { first, last, instance_length: size.total }),
            content_length: Some((last - first + 1) as u64),
            body: BodySource::Span { start: first, end: (last + 1) as u64 },
        },
        None => StreamPlan {
            status: Status::Success,
            content_range: None,
            content_length: size.total,
            body: BodySource::All,
        },
    }
}

/// Plans the answer to a request for a stream. See [`plan_of`].
pub fn plan_stream(range: &Option<Range>, size: Size) -> (plan: StreamPlan)
    ensures
        plan == plan_of(header_view(*range), size),
{
    let span = match range {
        Some(Range::Bytes(specs)) => {
            if specs.len() > 0 {
                clamp_span(specs[0], size.available)
            } else {
                None
            }
        },
        _ => None,
    };
    match span {
        Some((first, last)) => StreamPlan {
            status: Status::PartialContent,
            content_range: Some(ContentRange { first, last, instance_length: size.total }),
            content_length: Some(last - first + 1),
            body: BodySource::Span { start: first, end: last + 1 },
        },
        None => StreamPlan {
            status: Status::Success,
            content_range: None,
            content_length: size.total,
            body: BodySource::All,
        },
    }
}

/// The answer to a request for a file as it is: 200 and the whole stream,
/// with no length announced.
pub fn plan_file() -> (plan: StreamPlan)
    ensures
        plan == (StreamPlan {
            status: Status::Success,
            content_range: None,
            content_length: None,
            body: BodySource::All,
        }),
{
    StreamPlan {
        status: Status::Success,
        content_range: None,
        content_length: None,
        body: BodySource::All,
    }
}

} // verus!
