//! The server: how a request finds its handler, and what each handler
//! decides.

use crate::browse::{browse, browse_result};
use crate::description::{render_root_xml, root_xml, CONNECTION_XML, CONTENT_XML};
use crate::http::{Method, Status};
use crate::job::{lemma_range_body, size_of, stream_of, JobState, JobView, Reader};
use crate::media::{entry_views, MediaEntry};
use crate::reply::{
    bare_reply, call_method_not_allowed, call_not_found, failure_reply, fault_reply,
    handled_view, respond_failure, respond_soap, respond_stream, respond_text, soap_reply,
    stream_reply, Action, ActionView, BodyView, Failure, Reply, SoapBody,
};
use crate::request::{after_segment, decoded_id, next_segment, rest_of, Request, RequestView};
use crate::soap::{
    fault_for, fault_string, parse_soap_action, quoted, soap_call, unquoted, BROWSE,
    FAULT_CODE, NO_HEADER, SERVICE_PREFIX, UNKNOWN_ACTION,
};
use crate::stream::{
    header_view, plan_file, plan_of, plan_stream, BodySource, ByteRangeSpec, ContentRange, Range,
    RangeView, Size, StreamPlan,
};
use crate::text::same_text;
use std::sync::Arc;
use vstd::prelude::*;

verus! {

/// First segment of the path of the device description.
pub const ROOT_XML: &'static str = "root.xml";

/// First segment of the paths of the connection manager.
pub const CONNECTION: &'static str = "connection";

/// First segment of the paths of the content directory.
pub const CONTENT: &'static str = "content";

/// First segment of the paths of files sent as they are.
pub const FILES: &'static str = "files";

/// First segment of the paths of streamed videos.
pub const VIDEO: &'static str = "video";

/// Second segment of the path of a service description.
pub const DESC_XML: &'static str = "desc.xml";

/// Second segment of the path that takes SOAP calls.
pub const CONTROL: &'static str = "control";

/// What the server is set up with.
#[derive(Debug)]
pub struct ServerArgs {
    /// The address under which clients reach the server, scheme included.
    pub uri: String,
    /// The friendly name of the device.
    pub name: String,
    /// The identifier of the device.
    pub uuid: String,
    /// The address to listen on.
    pub bind_addr: String,
}

/// What every handler of a server knows: its address and the description of
/// the device.
pub ghost struct ServerView {
    pub uri: Seq<char>,
    pub root_xml: Seq<char>,
}

/// Makes the servers, one for each connection.
#[derive(Debug)]
pub struct ServerFactory {
    uri: String,
    root_xml: String,
}

impl View for ServerFactory {
    type V = ServerView;

    closed spec fn view(&self) -> ServerView {
        ServerView { uri: self.uri@, root_xml: self.root_xml@ }
    }
}

impl ServerFactory {
    /// Sets a server up: the description of the device is written once,
    /// with its name and identifier.
    pub fn new(args: ServerArgs) -> (factory: Self)
        ensures
            factory@ == (ServerView {
                uri: args.uri@,
                root_xml: root_xml(args.name@, args.uuid@),
            }),
    {
        let root_xml = render_root_xml(args.name.as_str(), args.uuid.as_str());
        ServerFactory { uri: args.uri, root_xml }
    }

    /// A server for one connection.
    pub fn new_service(&self) -> (service: ServerRef)
        ensures
            service@ == self@,
    {
        ServerRef(Arc::new(Server::new(self)))
    }
}

/// The state of a server.
#[derive(Debug)]
pub struct Server {
    uri: String,
    root_xml: String,
}

impl View for Server {
    type V = ServerView;

    closed spec fn view(&self) -> ServerView {
        ServerView { uri: self.uri@, root_xml: self.root_xml@ }
    }
}

impl Server {
    /// The server that a factory makes.
    pub fn new(factory: &ServerFactory) -> (server: Self)
        ensures
            server@ == factory@,
    {
        Server { uri: factory.uri.clone(), root_xml: factory.root_xml.clone() }
    }
}

/// A server, shared by the requests of a connection.
#[derive(Clone, Debug)]
pub struct ServerRef(Arc<Server>);

impl View for ServerRef {
    type V = ServerView;

    closed spec fn view(&self) -> ServerView {
        self.0@
    }
}

/// What the SOAP endpoint decides for a request with the given `SOAPACTION`
/// header: `Browse` goes on to the lookup, everything else is answered with
/// a fault.
pub open spec fn soap_handled(soapaction: Option<Seq<char>>) -> ActionView {
    match fault_string(soap_call(soapaction)) {
        Some(string) => ActionView::Reply(fault_reply(string)),
        None => ActionView::Browse,
    }
}

/// What is decided for a request below `content`.
pub open spec fn content_handled(req: RequestView) -> ActionView {
    let segment = next_segment(req.path, req.cursor);
    if segment == CONTROL@ {
        soap_handled(req.soapaction)
    } else if segment == DESC_XML@ {
        ActionView::Reply(bare_reply(Status::Success, BodyView::Text(CONTENT_XML@)))
    } else {
        ActionView::Reply(failure_reply(Failure::NotFound))
    }
}

/// What is decided for a request below `connection`.
pub open spec fn connection_handled(req: RequestView) -> ActionView {
    if next_segment(req.path, req.cursor) == DESC_XML@ {
        ActionView::Reply(bare_reply(Status::Success, BodyView::Text(CONNECTION_XML@)))
    } else {
        ActionView::Reply(failure_reply(Failure::NotFound))
    }
}

/// What is decided for a request below `files`: the rest of the path names
/// the file.
pub open spec fn files_handled(req: RequestView) -> Result<ActionView, Failure> {
    match decoded_id(rest_of(req.path, req.cursor)) {
        Some(id) => Ok(ActionView::File { id }),
        None => Err(Failure::Internal),
    }
}

/// What is decided for a request below `video`: the rest of the path names
/// the video, and the range header goes along.
pub open spec fn video_handled(req: RequestView) -> Result<ActionView, Failure> {
    match decoded_id(rest_of(req.path, req.cursor)) {
        Some(id) => Ok(ActionView::Video { id, range: req.range }),
        None => Err(Failure::Internal),
    }
}

/// The request with its next segment taken off.
pub open spec fn popped(req: RequestView) -> RequestView {
    RequestView { cursor: after_segment(req.path, req.cursor), ..req }
}

/// What is decided for a request, by the next segment of its path.
pub open spec fn root_handled(server: ServerView, req: RequestView) -> Result<ActionView, Failure> {
    let segment = next_segment(req.path, req.cursor);
    let rest = popped(req);
    if segment == ROOT_XML@ {
        if req.method == Method::Get {
            Ok(ActionView::Reply(bare_reply(Status::Success, BodyView::Text(server.root_xml))))
        } else {
            Ok(ActionView::Reply(failure_reply(Failure::MethodNotAllowed)))
        }
    } else if segment == CONNECTION@ {
        Ok(connection_handled(rest))
    } else if segment == CONTENT@ {
        Ok(content_handled(rest))
    } else if segment == FILES@ {
        files_handled(rest)
    } else if segment == VIDEO@ {
        video_handled(rest)
    } else {
        Ok(ActionView::Reply(failure_reply(Failure::NotFound)))
    }
}

/// What the server does with a request: what its handler decides, with
/// every failure turned into its reply.
pub open spec fn answered(server: ServerView, req: RequestView) -> ActionView {
    match root_handled(server, req) {
        Ok(action) => action,
        Err(failure) => ActionView::Reply(failure_reply(failure)),
    }
}

impl ServerRef {
    /// Serves a request: finds its handler, and turns a failure into its
    /// reply.
    pub fn call(&self, req: Request) -> (action: Action)
        requires
            req.wf(),
        ensures
            action@ == answered(self@, req@),
    {
        match self.call_root(req) {
            Ok(action) => action,
            Err(failure) => Action::Reply(respond_failure(failure)),
        }
    }

    /// Dispatches on the first segment of the path.
    pub fn call_root(&self, mut req: Request) -> (handled: Result<Action, Failure>)
        requires
            req.wf(),
        ensures
            handled_view(handled) == root_handled(self@, req@),
    {
        let segment = req.pop();
        if same_text(segment.as_str(), ROOT_XML) {
            match req.method() {
                Method::Get => Ok(Action::Reply(respond_text(self.0.root_xml.clone()))),
                _ => Ok(Action::Reply(call_method_not_allowed())),
            }
        } else if same_text(segment.as_str(), CONNECTION) {
            Ok(self.call_connection(req))
        } else if same_text(segment.as_str(), CONTENT) {
            Ok(self.call_content(req))
        } else if same_text(segment.as_str(), FILES) {
            self.call_files(req)
        } else if same_text(segment.as_str(), VIDEO) {
            self.call_video(req)
        } else {
            Ok(Action::Reply(call_not_found()))
        }
    }

    /// Serves the paths of the connection manager.
    pub fn call_connection(&self, mut req: Request) -> (action: Action)
        requires
            req.wf(),
        ensures
            action@ == connection_handled(req@),
    {
        let segment = req.pop();
        if same_text(segment.as_str(), DESC_XML) {
            Action::Reply(respond_text(CONNECTION_XML.to_owned()))
        } else {
            Action::Reply(call_not_found())
        }
    }

    /// Serves the paths of the content directory.
    pub fn call_content(&self, mut req: Request) -> (action: Action)
        requires
            req.wf(),
        ensures
            action@ == content_handled(req@),
    {
        let segment = req.pop();
        if same_text(segment.as_str(), CONTROL) {
            self.call_content_soap(req)
        } else if same_text(segment.as_str(), DESC_XML) {
            Action::Reply(respond_text(CONTENT_XML.to_owned()))
        } else {
            Action::Reply(call_not_found())
        }
    }

    /// Serves a SOAP call: finds the action that the request names.
    pub fn call_content_soap(&self, req: Request) -> (action: Action)
        ensures
            action@ == soap_handled(req@.soapaction),
    {
        let call = parse_soap_action(req.soapaction());
        match fault_for(&call) {
            Some(fault) => Action::Reply(respond_soap(SoapBody::Fault(fault))),
            None => Action::Browse,
        }
    }

    /// Serves a file as it is: names the file to look up.
    pub fn call_files(&self, req: Request) -> (handled: Result<Action, Failure>)
        requires
            req.wf(),
        ensures
            handled_view(handled) == files_handled(req@),
    {
        match req.decoded_path() {
            Some(id) => Ok(Action::File { id }),
            None => Err(Failure::Internal),
        }
    }

    /// Serves a video: names the video to look up and resolve.
    pub fn call_video(&self, mut req: Request) -> (handled: Result<Action, Failure>)
        requires
            req.wf(),
        ensures
            handled_view(handled) == video_handled(req@),
    {
        match req.decoded_path() {
            Some(id) => {
                let range = req.take_range();
                Ok(Action::Video { id, range })
            },
            None => Err(Failure::Internal),
        }
    }

    /// The reply that sends a file as it is: the whole of it, with no length
    /// announced.
    pub fn send_file(&self) -> (reply: Reply)
        ensures
            reply@ == stream_reply(
                StreamPlan {
                    status: Status::Success,
                    content_range: None,
                    content_length: None,
                    body: BodySource::All,
                },
                false,
            ),
    {
        respond_stream(plan_file(), false)
    }

    /// The reply that streams a video of the given size to a request with
    /// the given range header. Ranges are always offered.
    pub fn send_video(&self, range: &Option<Range>, size: Size) -> (reply: Reply)
        ensures
            reply@ == stream_reply(plan_of(header_view(*range), size), true),
    {
        respond_stream(plan_stream(range, size), true)
    }

    /// Answers a `Browse` request for an object with the given children.
    pub fn call_dlna_browse(&self, children: Vec<MediaEntry>) -> (reply: Reply)
        ensures
            reply@ == soap_reply(
                BodyView::Browse(browse_result(self@.uri, entry_views(children@))),
            ),
    {
        respond_soap(SoapBody::BrowseResponse(browse(self.0.uri.as_str(), children)))
    }
}

/// A call of an action that the service does not have is answered with a
/// fault, under status 200, whose fault string names the action.
pub proof fn lemma_unknown_action(value: Seq<char>)
    requires
        SERVICE_PREFIX@.is_prefix_of(unquoted(value)),
        unquoted(value).skip(SERVICE_PREFIX@.len() as int) != BROWSE@,
    ensures
        ({
            let name = unquoted(value).skip(SERVICE_PREFIX@.len() as int);
            &&& soap_handled(Some(value)) matches ActionView::Reply(reply)
            &&& reply.status.number() == 200
            &&& reply.body == (BodyView::Fault {
                code: FAULT_CODE@,
                string: UNKNOWN_ACTION@ + quoted(name),
            })
        }),
{
}

/// A call without a `SOAPACTION` header is answered with a fault, under
/// status 200, that says so.
pub proof fn lemma_missing_header()
    ensures
        soap_handled(None) matches ActionView::Reply(reply) && reply.status.number() == 200
            && reply.body == (BodyView::Fault { code: FAULT_CODE@, string: NO_HEADER@ }),
{
}

/// A request for the bytes `first-last` of a video, all of them ready, is
/// answered with status 206, the range and a length of `last - first + 1`,
/// and names those bytes as its body. The chunks read for that body, joined
/// in the order they are read, are exactly those bytes of the output. This
/// holds of every output but a failed one, from which every read fails.
pub proof fn lemma_video_range(job: JobView, first: u64, last: u64, limit: usize)
    requires
        job.wf(),
        job.state != JobState::Failed,
        first <= last < job.data.len(),
    ensures
        ({
            let range = Some(RangeView::Bytes(seq![ByteRangeSpec::FromTo(first, last)]));
            let reply = stream_reply(plan_of(range, size_of(job)), true);
            let reader = Reader { pos: first, end: Some((last + 1) as u64) };
            let body = stream_of(job, reader.pos, reader.end, limit).flatten();
            &&& reply.status.number() == 206
            &&& reply.accept_ranges
            &&& reply.content_range == Some(
                ContentRange { first, last, instance_length: size_of(job).total },
            )
            &&& reply.content_length == Some((last - first + 1) as u64)
            &&& reply.body == BodyView::Stream(
                BodySource::Span { start: first, end: (last + 1) as u64 },
            )
            &&& body.len() == last - first + 1
            &&& body == job.data.subrange(first as int, last + 1)
        }),
{
    lemma_range_body(job, first, last, limit, Seq::empty());
}

} // verus!
