//! What a handler decides: the reply to send, or the work that the
//! embedding program has to do before there is a reply.

use crate::browse::{BrowseResponse, BrowseView};
use crate::http::{ContentType, Status};
use crate::soap::{fault, Fault, FAULT_CODE};
use crate::stream::{header_view, BodySource, ContentRange, Range, RangeView, StreamPlan};
use vstd::prelude::*;

verus! {

/// The body of the `500` reply.
pub const INTERNAL_ERROR: &'static str = "Internal Error";

/// What a SOAP envelope carries.
#[derive(Debug)]
pub enum SoapBody {
    BrowseResponse(BrowseResponse),
    Fault(Fault),
}

/// A SOAP envelope, to be written as XML.
#[derive(Debug)]
pub struct Envelope {
    pub body: SoapBody,
}

/// The body of a reply.
#[derive(Debug)]
pub enum Body {
    /// No body.
    Empty,
    /// This text.
    Text(String),
    /// This envelope as XML.
    Soap(Envelope),
    /// These bytes of the stream that the request is for.
    Stream(BodySource),
}

/// What a [`Body`] holds.
pub ghost enum BodyView {
    Empty,
    Text(Seq<char>),
    Browse(BrowseView),
    Fault { code: Seq<char>, string: Seq<char> },
    Stream(BodySource),
}

impl View for Body {
    type V = BodyView;

    open spec fn view(&self) -> BodyView {
        match self {
            Body::Empty => BodyView::Empty,
            Body::Text(text) => BodyView::Text(text@),
            Body::Soap(envelope) => match envelope.body {
                SoapBody::BrowseResponse(response) => BodyView::Browse(response@),
                SoapBody::Fault(fault) => BodyView::Fault {
                    code: fault.faultcode@,
                    string: fault.faultstring@,
                },
            },
            Body::Stream(source) => BodyView::Stream(*source),
        }
    }
}

/// A reply: status, the headers that the handlers set, and the body.
#[derive(Debug)]
pub struct Reply {
    pub status: Status,
    pub content_type: Option<ContentType>,
    pub accept_ranges: bool,
    pub content_range: Option<ContentRange>,
    pub content_length: Option<u64>,
    pub body: Body,
}

/// What a [`Reply`] holds.
pub ghost struct ReplyView {
    pub status: Status,
    pub content_type: Option<ContentType>,
    pub accept_ranges: bool,
    pub content_range: Option<ContentRange>,
    pub content_length: Option<u64>,
    pub body: BodyView,
}

impl View for Reply {
    type V = ReplyView;

    open spec fn view(&self) -> ReplyView {
        ReplyView {
            status: self.status,
            content_type: self.content_type,
            accept_ranges: self.accept_ranges,
            content_range: self.content_range,
            content_length: self.content_length,
            body: self.body@,
        }
    }
}

/// A reply of the given status with no headers set and the given body.
pub open spec fn bare_reply(status: Status, body: BodyView) -> ReplyView {
    ReplyView {
        status,
        content_type: None,
        accept_ranges: false,
        content_range: None,
        content_length: None,
        body,
    }
}

/// The reply that carries a SOAP envelope: always 200, as XML.
pub open spec fn soap_reply(body: BodyView) -> ReplyView {
    ReplyView { content_type: Some(ContentType::Xml), ..bare_reply(Status::Success, body) }
}

/// The reply that carries a fault with the given fault string.
pub open spec fn fault_reply(string: Seq<char>) -> ReplyView {
    soap_reply(BodyView::Fault { code: FAULT_CODE@, string })
}

/// The reply that streams what `plan` says, as bytes of no particular kind.
pub open spec fn stream_reply(plan: StreamPlan, accept_ranges: bool) -> ReplyView {
    ReplyView {
        status: plan.status,
        content_type: Some(ContentType::OctetStream),
        accept_ranges,
        content_range: plan.content_range,
        content_length: plan.content_length,
        body: BodyView::Stream(plan.body),
    }
}

/// A failure on the way to a reply.
#[derive(Clone, Copy, Debug, PartialEq, Eq, Structural)]
pub enum Failure {
    /// What the request names does not exist.
    NotFound,
    /// What the request names does not take the method.
    MethodNotAllowed,
    /// Anything else.
    Internal,
}

/// The reply that a failure is turned into: nothing of the failure itself
/// is shown.
pub open spec fn failure_reply(failure: Failure) -> ReplyView {
    match failure {
        Failure::NotFound => bare_reply(Status::NotFound, BodyView::Empty),
        Failure::MethodNotAllowed => bare_reply(Status::MethodNotAllowed, BodyView::Empty),
        Failure::Internal => bare_reply(
            Status::InternalServerError,
            BodyView::Text(INTERNAL_ERROR@),
        ),
    }
}

/// What is looked up for a request.
#[derive(Clone, Copy, Debug, PartialEq, Eq, Structural)]
pub enum Target {
    /// The object of a `Browse` request.
    Object,
    /// A file to send as it is.
    File,
    /// A video to stream.
    Video,
}

/// The failure to report where the lookup of `target` finds nothing. A file
/// or a video that does not exist is not found; a `Browse` request for an
/// object that does not exist fails as a whole.
pub fn unresolved(target: Target) -> (failure: Failure)
    ensures
        failure == match target {
            Target::Object => Failure::Internal,
            Target::File => Failure::NotFound,
            Target::Video => Failure::NotFound,
        },
{
    match target {
        Target::Object => Failure::Internal,
        Target::File => Failure::NotFound,
        Target::Video => Failure::NotFound,
    }
}

/// A reply with no headers set.
fn bare(status: Status, body: Body) -> (reply: Reply)
    ensures
        reply@ == bare_reply(status, body@),
{
    Reply {
        status,
        content_type: None,
        accept_ranges: false,
        content_range: None,
        content_length: None,
        body,
    }
}

/// The `200` reply with the given text.
pub fn respond_text(text: String) -> (reply: Reply)
    ensures
        reply@ == bare_reply(Status::Success, BodyView::Text(text@)),
{
    bare(Status::Success, Body::Text(text))
}

/// The reply that carries `body` in a SOAP envelope.
pub fn respond_soap(body: SoapBody) -> (reply: Reply)
    ensures
        reply@ == soap_reply((Body::Soap(Envelope { body }))@),
{
    Reply {
        status: Status::Success,
        content_type: Some(ContentType::Xml),
        accept_ranges: false,
        content_range: None,
        content_length: None,
        body: Body::Soap(Envelope { body }),
    }
}

/// The reply that reports a fault: status 200, as the service convention
/// has it, with the fault in the envelope.
pub fn respond_soap_fault(msg: String) -> (reply: Reply)
    ensures
        reply@ == fault_reply(msg@),
{
    respond_soap(SoapBody::Fault(fault(msg)))
}

/// The reply to a request for something that is not there.
pub fn call_not_found() -> (reply: Reply)
    ensures
        reply@ == failure_reply(Failure::NotFound),
{
    bare(Status::NotFound, Body::Empty)
}

/// The reply to a request with a method that is not taken.
pub fn call_method_not_allowed() -> (reply: Reply)
    ensures
        reply@ == failure_reply(Failure::MethodNotAllowed),
{
    bare(Status::MethodNotAllowed, Body::Empty)
}

/// Turns a failure into its reply. See [`failure_reply`].
pub fn respond_failure(failure: Failure) -> (reply: Reply)
    ensures
        reply@ == failure_reply(failure),
{
    match failure {
        Failure::NotFound => call_not_found(),
        Failure::MethodNotAllowed => call_method_not_allowed(),
        Failure::Internal => bare(
            Status::InternalServerError,
            Body::Text(INTERNAL_ERROR.to_owned()),
        ),
    }
}

/// The reply that streams what `plan` says.
pub fn respond_stream(plan: StreamPlan, accept_ranges: bool) -> (reply: Reply)
    ensures
        reply@ == stream_reply(plan, accept_ranges),
{
    Reply {
        status: plan.status,
        content_type: Some(ContentType::OctetStream),
        accept_ranges,
        content_range: plan.content_range,
        content_length: plan.content_length,
        body: Body::Stream(plan.body),
    }
}

/// What a handler decides.
#[derive(Debug)]
pub enum Action {
    /// Send this reply.
    Reply(Reply),
    /// Read the object identifier from the body of the request, look the
    /// object up and list its children; they make the reply.
    Browse,
    /// Look the file up and send it as it is.
    File { id: String },
    /// Look the video up, resolve its output for the device that asks, and
    /// stream it; the size of the output and `range` make the reply.
    Video { id: String, range: Option<Range> },
}

/// What an [`Action`] holds.
pub ghost enum ActionView {
    Reply(ReplyView),
    Browse,
    File { id: Seq<char> },
    Video { id: Seq<char>, range: Option<RangeView> },
}

impl View for Action {
    type V = ActionView;

    open spec fn view(&self) -> ActionView {
        match self {
            Action::Reply(reply) => ActionView::Reply(reply@),
            Action::Browse => ActionView::Browse,
            Action::File { id } => ActionView::File { id: id@ },
            Action::Video { id, range } => ActionView::Video { id: id@, range: header_view(*range) },
        }
    }
}

/// The view of what a handler returns.
pub open spec fn handled_view(handled: Result<Action, Failure>) -> Result<ActionView, Failure> {
    match handled {
        Ok(action) => Ok(action@),
        Err(failure) => Err(failure),
    }
}

} // verus!
