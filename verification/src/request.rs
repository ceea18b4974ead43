//! A request as the handlers see it: the method, the path, which is taken
//! apart one segment at a time, and the two headers that matter.

use crate::http::Method;
use crate::percent::{percent_decode, percent_decoded};
use crate::stream::{header_view, Range, RangeView};
use crate::text::chars_of;
use vstd::prelude::*;
use vstd::string::StrSliceExecFns;
use vstd::utf8::{decode_utf8, encode_utf8, valid_utf8};

verus! {

/// Where the next segment of `path` starts for a reader at `cursor`: behind
/// the slash at the cursor, if one stands there.
pub open spec fn segment_start(path: Seq<char>, cursor: int) -> int {
    if 0 <= cursor < path.len() && path[cursor] == '/' {
        cursor + 1
    } else {
        cursor
    }
}

/// Where the segment that starts at `i` ends: at the next slash, or at the
/// end of the path.
pub open spec fn segment_end(path: Seq<char>, i: int) -> int
    decreases path.len() - i,
{
    if 0 <= i < path.len() && path[i] != '/' {
        segment_end(path, i + 1)
    } else {
        i
    }
}

/// The next segment of `path` for a reader at `cursor`.
pub open spec fn next_segment(path: Seq<char>, cursor: int) -> Seq<char> {
    let start = segment_start(path, cursor);
    path.subrange(start, segment_end(path, start))
}

/// Where a reader at `cursor` stands after it has taken the next segment.
pub open spec fn after_segment(path: Seq<char>, cursor: int) -> int {
    segment_end(path, segment_start(path, cursor))
}

/// What is left of `path` for a reader at `cursor`, without the slash that
/// leads it.
pub open spec fn rest_of(path: Seq<char>, cursor: int) -> Seq<char> {
    path.subrange(segment_start(path, cursor), path.len() as int)
}

/// The bytes that the rest of a path stands for once its percent-encoding
/// is undone.
pub open spec fn decoded_bytes(rest: Seq<char>) -> Seq<u8> {
    percent_decoded(encode_utf8(rest))
}

/// The identifier that the rest of a path names, if it names one: its
/// percent-encoding undone, read as UTF-8.
pub open spec fn decoded_id(rest: Seq<char>) -> Option<Seq<char>> {
    if valid_utf8(decoded_bytes(rest)) {
        Some(decode_utf8(decoded_bytes(rest)))
    } else {
        None
    }
}

/// A request.
#[derive(Debug)]
pub struct Request {
    method: Method,
    path: String,
    chars: Vec<char>,
    cursor: usize,
    soapaction: Option<String>,
    range: Option<Range>,
}

/// What a [`Request`] holds: `cursor` is how far the path has been read.
pub ghost struct RequestView {
    pub method: Method,
    pub path: Seq<char>,
    pub cursor: int,
    pub soapaction: Option<Seq<char>>,
    pub range: Option<RangeView>,
}

impl View for Request {
    type V = RequestView;

    closed spec fn view(&self) -> RequestView {
        RequestView {
            method: self.method,
            path: self.path@,
            cursor: self.cursor as int,
            soapaction: match self.soapaction {
                Some(value) => Some(value@),
                None => None,
            },
            range: header_view(self.range),
        }
    }
}

impl Request {
    /// Whether the request is as every request is kept: the cursor lies
    /// within the path.
    pub closed spec fn wf(&self) -> bool {
        &&& self.chars@ == self.path@
        &&& self.cursor <= self.path@.len()
    }

    /// A request with nothing of its path read yet. `soapaction` and `range`
    /// are the headers of those names, where the request has them.
    pub fn new(method: Method, path: String, soapaction: Option<String>, range: Option<Range>) -> (req:
        Request)
        ensures
            req.wf(),
            req@ == (RequestView {
                method,
                path: path@,
                cursor: 0,
                soapaction: match soapaction {
                    Some(value) => Some(value@),
                    None => None,
                },
                range: header_view(range),
            }),
    {
        let chars = chars_of(path.as_str());
        Request { method, path, chars, cursor: 0, soapaction, range }
    }

    /// The method of the request.
    pub fn method(&self) -> (method: Method)
        ensures
            method == self@.method,
    {
        self.method
    }

    /// The `SOAPACTION` header.
    pub fn soapaction(&self) -> (value: Option<&str>)
        ensures
            match value {
                Some(v) => self@.soapaction == Some(v@),
                None => self@.soapaction is None,
            },
    {
        match &self.soapaction {
            Some(value) => Some(value.as_str()),
            None => None,
        }
    }

    /// The `Range` header.
    pub fn range(&self) -> (range: &Option<Range>)
        ensures
            header_view(*range) == self@.range,
    {
        &self.range
    }

    /// Takes the `Range` header out of the request.
    pub fn take_range(&mut self) -> (range: Option<Range>)
        requires
            old(self).wf(),
        ensures
            final(self).wf(),
            header_view(range) == old(self)@.range,
            final(self)@ == (RequestView { range: None, ..old(self)@ }),
    {
        self.range.take()
    }

    /// Where the next segment starts.
    fn start(&self) -> (start: usize)
        requires
            self.wf(),
        ensures
            start == segment_start(self@.path, self@.cursor),
            start <= self@.path.len(),
    {
        if self.cursor < self.chars.len() && self.chars[self.cursor] == '/' {
            self.cursor + 1
        } else {
            self.cursor
        }
    }

    /// Takes the next segment off the path and returns it.
    pub fn pop(&mut self) -> (segment: String)
        requires
            old(self).wf(),
        ensures
            final(self).wf(),
            segment@ == next_segment(old(self)@.path, old(self)@.cursor),
            final(self)@ == (RequestView {
                cursor: after_segment(old(self)@.path, old(self)@.cursor),
                ..old(self)@
            }),
    {
        let start = self.start();
        let mut end: usize = start;
        while end < self.chars.len() && self.chars[end] != '/'
            invariant
                start <= end <= self.chars@.len(),
                self.chars@ == self.path@,
                segment_end(self.path@, start as int) == segment_end(self.path@, end as int),
            decreases self.chars.len() - end,
        {
            end += 1;
        }
        let segment = self.path.as_str().substring_char(start, end).to_owned();
        self.cursor = end;
        segment
    }

    /// The identifier that the rest of the path names, if it names one. See
    /// [`decoded_id`].
    pub fn decoded_path(&self) -> (id: Option<String>)
        requires
            self.wf(),
        ensures
            match id {
                Some(text) => decoded_id(rest_of(self@.path, self@.cursor)) == Some(text@),
                None => decoded_id(rest_of(self@.path, self@.cursor)) is None,
            },
    {
        let start = self.start();
        let rest = self.path.as_str().substring_char(start, self.chars.len());
        let id = percent_decode(rest.as_bytes());
        proof {
            if id is Some {
                vstd::utf8::encode_utf8_decode_utf8(id->0@);
            }
        }
        id
    }
}

} // verus!
