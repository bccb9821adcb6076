//! One connection, from the request line to the last byte of the response.
//!
//! The connection is a state machine. Each call of `handle_connection` takes
//! the phase the connection is in and the event that answers its last
//! action, and gives the next phase and the next action. The phases are
//! passed in one direction only.

use crate::request::{
    has_at, lemma_request_line, method_prefix, parse_request, path_end, request_path,
    version_line, RequestError, SPACE,
};
use crate::response::{
    lemma_encode_concat, lemma_found_page, lemma_missing_page, push_head, push_response,
    spec_head, spec_response, Status, NOT_FOUND_TEXT,
};
use crate::stream::{InternalStream, Stream};
use crate::web::{same_text, Web, DEFAULT_TYPE};
use vstd::prelude::*;
use vstd::string::*;
use vstd::utf8::*;

verus! {

/// The path that stands for the static root's index page.
pub const ROOT_PATH: &'static str = "/";

/// The file served for the path `/`, below the static root.
pub const INDEX_FILE: &'static str = "/index.html";

/// The file served with status 404, below the static root.
pub const NOT_FOUND_FILE: &'static str = "/404.html";

/// What a connection waits for.
#[derive(Clone, Copy, Debug, PartialEq, Eq, Structural)]
pub enum Phase {
    /// The request has not been read yet.
    Header,
    /// The static file for the path is being looked up.
    Static,
    /// The static root's 404 page is being looked up.
    NotFound,
    /// A route's handler is producing the response.
    Handler,
    /// The response is being sent.
    Send,
    /// The connection is over.
    Closed,
}

/// How a connection ended.
#[derive(Clone, Copy, Debug, PartialEq, Eq, Structural)]
pub enum Outcome {
    /// A response went out.
    Served,
    /// The request line was malformed: the connection closes and nothing is
    /// written to it.
    Malformed(RequestError),
    /// The transport or the handler failed, or an event came that the phase
    /// does not wait for: the connection is given up.
    Aborted,
}

/// What happened since the last action.
pub enum Event {
    /// The read of the request completed with these bytes.
    Header(Vec<u8>),
    /// The file that was asked for holds this text, or cannot be read.
    File(Option<String>),
    /// The handler, or the send, completed.
    Done,
    /// The transport or the handler failed.
    Failed,
}

/// What the connection's task does next.
pub enum Action<'a, H> {
    /// Read the file at this path and report its text.
    Read(String),
    /// Hand the stream, which holds the head of the response, to this
    /// handler and wait for it; the handler pushes the body and sends.
    Handle(&'a H, Stream),
    /// Send the pending output of this stream: a whole response.
    Send(InternalStream),
    /// Complete the task.
    Finish(Outcome),
}

/// An event, by what it holds.
pub enum EventView {
    Header(Seq<u8>),
    File(Option<Seq<char>>),
    Done,
    Failed,
}

/// An action, by what it holds.
pub enum Plan<H> {
    Read(Seq<char>),
    Handle(H, Seq<u8>),
    Send(Seq<u8>),
    Finish(Outcome),
}

impl View for Event {
    type V = EventView;

    open spec fn view(&self) -> EventView {
        match self {
            Event::Header(buffer) => EventView::Header(buffer@),
            Event::File(Some(text)) => EventView::File(Some(text@)),
            Event::File(None) => EventView::File(None),
            Event::Done => EventView::Done,
            Event::Failed => EventView::Failed,
        }
    }
}

impl<'a, H> View for Action<'a, H> {
    type V = Plan<H>;

    open spec fn view(&self) -> Plan<H> {
        match self {
            Action::Read(path) => Plan::Read(path@),
            Action::Handle(handler, stream) => Plan::Handle(**handler, stream@),
            Action::Send(stream) => Plan::Send(stream@),
            Action::Finish(outcome) => Plan::Finish(*outcome),
        }
    }
}

/// The place of a phase in the order in which phases are passed.
pub open spec fn rank(phase: Phase) -> nat {
    match phase {
        Phase::Header => 0,
        Phase::Static => 1,
        Phase::NotFound => 2,
        Phase::Handler => 3,
        Phase::Send => 4,
        Phase::Closed => 5,
    }
}

/// Where a well-formed request for `path` leads.
///
/// The path `/` is the index page, whatever the table holds; then a route
/// registered for exactly this path; then the file of that name below the
/// static root.
pub open spec fn spec_route<H>(
    path: Seq<char>,
    root: Seq<char>,
    routes: Map<Seq<char>, (Seq<char>, H)>,
) -> (Phase, Plan<H>) {
    if path == ROOT_PATH@ {
        (Phase::Static, Plan::Read(root + INDEX_FILE@))
    } else if routes.contains_key(path) {
        (Phase::Handler, Plan::Handle(routes[path].1, spec_head(Status::Found, routes[path].0)))
    } else {
        (Phase::Static, Plan::Read(root + path))
    }
}

/// The next phase and action of a connection.
pub open spec fn spec_step<H>(
    phase: Phase,
    event: EventView,
    root: Seq<char>,
    routes: Map<Seq<char>, (Seq<char>, H)>,
) -> (Phase, Plan<H>) {
    match (phase, event) {
        (Phase::Header, EventView::Header(buffer)) => match request_path(buffer) {
            Ok(path) => spec_route(decode_utf8(path), root, routes),
            Err(error) => (Phase::Closed, Plan::Finish(Outcome::Malformed(error))),
        },
        (Phase::Static, EventView::File(Some(body))) => (
            Phase::Send,
            Plan::Send(spec_response(Status::Found, DEFAULT_TYPE@, body)),
        ),
        (Phase::Static, EventView::File(None)) => (
            Phase::NotFound,
            Plan::Read(root + NOT_FOUND_FILE@),
        ),
        (Phase::NotFound, EventView::File(Some(body))) => (
            Phase::Send,
            Plan::Send(spec_response(Status::NotFound, DEFAULT_TYPE@, body)),
        ),
        (Phase::NotFound, EventView::File(None)) => (
            Phase::Send,
            Plan::Send(spec_response(Status::NotFound, DEFAULT_TYPE@, NOT_FOUND_TEXT@)),
        ),
        (Phase::Handler, EventView::Done) => (Phase::Closed, Plan::Finish(Outcome::Served)),
        (Phase::Send, EventView::Done) => (Phase::Closed, Plan::Finish(Outcome::Served)),
        _ => (Phase::Closed, Plan::Finish(Outcome::Aborted)),
    }
}

/// The path of the file `name` below the static root of `web`.
fn file_below<H>(web: &Web<H>, name: &str) -> (path: String)
    ensures
        path@ == web.root() + name@,
{
    let mut path = web.path().to_owned();
    path.append(name);
    path
}

/// A response of `status` with `body`, ready to be sent.
fn respond<'a, H>(status: Status, body: &str) -> (action: Action<'a, H>)
    ensures
        action@ == Plan::<H>::Send(spec_response(status, DEFAULT_TYPE@, body@)),
{
    let mut stream = InternalStream::new();
    push_response(&mut stream, status, DEFAULT_TYPE, body);
    assert(stream@ =~= spec_response(status, DEFAULT_TYPE@, body@));
    Action::Send(stream)
}

/// Resolves a well-formed request for `path`.
fn route<'a, H>(path: &str, web: &'a Web<H>) -> (next: (Phase, Action<'a, H>))
    requires
        web.wf(),
    ensures
        (next.0, next.1@) == spec_route(path@, web.root(), web.routes()),
        next.1 matches Action::Handle(_, stream) ==> stream.wf(),
{
    if same_text(path, ROOT_PATH) {
        return (Phase::Static, Action::Read(file_below(web, INDEX_FILE)));
    }
    match web.get(path) {
        Some(route) => {
            let mut stream = InternalStream::new();
            push_head(&mut stream, Status::Found, route.content_type);
            assert(stream@ =~= spec_head(Status::Found, route.content_type@));
            (Phase::Handler, Action::Handle(&route.handler, Stream::new(stream)))
        },
        None => (Phase::Static, Action::Read(file_below(web, path))),
    }
}

/// Takes a connection one step further: from the phase it is in and the
/// event that answers its last action to the next phase and action.
///
/// A connection starts in `Phase::Header`, its task reading the request, and
/// is over once the action is `Action::Finish`. A malformed request ends it
/// with nothing written. A failure, or an event that the phase does not
/// wait for, ends it as well. No step leads back to an earlier phase.
pub fn handle_connection<'a, H>(phase: Phase, event: Event, web: &'a Web<H>) -> (next: (
    Phase,
    Action<'a, H>,
))
    requires
        web.wf(),
    ensures
        (next.0, next.1@) == spec_step(phase, event@, web.root(), web.routes()),
        next.1 matches Action::Handle(_, stream) ==> stream.wf(),
        next.0 == Phase::Closed <==> next.1 is Finish,
        rank(next.0) > rank(phase) || next.0 == Phase::Closed,
{
    match (phase, event) {
        (Phase::Header, Event::Header(buffer)) => match parse_request(buffer.as_slice()) {
            Ok(path) => {
                proof {
                    encode_utf8_decode_utf8(path@);
                }
                route(path, web)
            },
            Err(error) => (Phase::Closed, Action::Finish(Outcome::Malformed(error))),
        },
        (Phase::Static, Event::File(Some(body))) => (
            Phase::Send,
            respond(Status::Found, body.as_str()),
        ),
        (Phase::Static, Event::File(None)) => (
            Phase::NotFound,
            Action::Read(file_below(web, NOT_FOUND_FILE)),
        ),
        (Phase::NotFound, Event::File(Some(body))) => (
            Phase::Send,
            respond(Status::NotFound, body.as_str()),
        ),
        (Phase::NotFound, Event::File(None)) => (
            Phase::Send,
            respond(Status::NotFound, NOT_FOUND_TEXT),
        ),
        (Phase::Handler, Event::Done) => (Phase::Closed, Action::Finish(Outcome::Served)),
        (Phase::Send, Event::Done) => (Phase::Closed, Action::Finish(Outcome::Served)),
        _ => (Phase::Closed, Action::Finish(Outcome::Aborted)),
    }
}

/// The bytes of a request line for the text `path`, followed by `rest`.
pub open spec fn request_for(path: Seq<char>, rest: Seq<u8>) -> Seq<u8> {
    method_prefix() + encode_utf8(path) + seq![SPACE] + version_line() + rest
}

/// A request for `/`, whatever follows its first line, makes the
/// connection look up the index page below the static root; where that
/// page holds `body`, the response is exactly
/// `HTTP/1.1 200 OK\nContent-Type: text/html; charset=utf-8\r\n\r\n`
/// followed by `body`.
pub proof fn lemma_index_served<H>(
    rest: Seq<u8>,
    body: Seq<char>,
    root: Seq<char>,
    routes: Map<Seq<char>, (Seq<char>, H)>,
)
    ensures
        spec_step(Phase::Header, EventView::Header(request_for("/"@, rest)), root, routes) == (
            Phase::Static,
            Plan::<H>::Read(root + "/index.html"@),
        ),
        spec_step(Phase::Static, EventView::File(Some(body)), root, routes) == (
            Phase::Send,
            Plan::<H>::Send(
                encode_utf8(
                    "HTTP/1.1 200 OK\nContent-Type: text/html; charset=utf-8\r\n\r\n"@ + body,
                ),
            ),
        ),
{
    reveal_strlit("/");
    let path = encode_utf8("/"@);
    is_ascii_chars_encode_utf8("/"@);
    encode_utf8_valid_utf8("/"@);
    encode_utf8_decode_utf8("/"@);
    lemma_request_line(path, rest);
    lemma_found_page(body);
}

/// A request for a path that no route and no static file matches is
/// answered with status 404: the file of that name is looked up below the
/// static root, then, as it is missing, the root's 404 page. Where that
/// page holds `body`, the response is exactly
/// `HTTP/1.1 404 NOT FOUND\nContent-Type: text/html; charset=utf-8\r\n\r\n`
/// followed by `body`; where it is missing too, the body is
/// `404 NOT FOUND`.
pub proof fn lemma_missing_served<H>(
    path: Seq<char>,
    rest: Seq<u8>,
    body: Seq<char>,
    root: Seq<char>,
    routes: Map<Seq<char>, (Seq<char>, H)>,
)
    requires
        path != "/"@,
        !routes.contains_key(path),
        forall|i: int| 0 <= i < encode_utf8(path).len() ==> encode_utf8(path)[i] != SPACE,
    ensures
        spec_step(Phase::Header, EventView::Header(request_for(path, rest)), root, routes) == (
            Phase::Static,
            Plan::<H>::Read(root + path),
        ),
        spec_step(Phase::Static, EventView::File(None), root, routes) == (
            Phase::NotFound,
            Plan::<H>::Read(root + "/404.html"@),
        ),
        spec_step(Phase::NotFound, EventView::File(Some(body)), root, routes) == (
            Phase::Send,
            Plan::<H>::Send(
                encode_utf8(
                    "HTTP/1.1 404 NOT FOUND\nContent-Type: text/html; charset=utf-8\r\n\r\n"@
                        + body,
                ),
            ),
        ),
        spec_step(Phase::NotFound, EventView::File(None), root, routes) == (
            Phase::Send,
            Plan::<H>::Send(
                encode_utf8(
                    "HTTP/1.1 404 NOT FOUND\nContent-Type: text/html; charset=utf-8\r\n\r\n"@
                        + "404 NOT FOUND"@,
                ),
            ),
        ),
{
    encode_utf8_valid_utf8(path);
    encode_utf8_decode_utf8(path);
    lemma_request_line(encode_utf8(path), rest);
    lemma_missing_page(body);
    lemma_missing_page("404 NOT FOUND"@);
}

/// A request for the path of a route is answered by that route's handler,
/// which finds the head of the response in its stream: status 200 and the
/// route's content type.
pub proof fn lemma_route_served<H>(
    path: Seq<char>,
    rest: Seq<u8>,
    root: Seq<char>,
    routes: Map<Seq<char>, (Seq<char>, H)>,
)
    requires
        path != "/"@,
        routes.contains_key(path),
        forall|i: int| 0 <= i < encode_utf8(path).len() ==> encode_utf8(path)[i] != SPACE,
    ensures
        spec_step(Phase::Header, EventView::Header(request_for(path, rest)), root, routes) == (
            Phase::Handler,
            Plan::Handle(
                routes[path].1,
                encode_utf8("HTTP/1.1 200 OK\nContent-Type: "@ + routes[path].0 + "\r\n\r\n"@),
            ),
        ),
{
    encode_utf8_valid_utf8(path);
    encode_utf8_decode_utf8(path);
    lemma_request_line(encode_utf8(path), rest);
    lemma_encode_concat("HTTP/1.1 200 OK\nContent-Type: "@, routes[path].0);
    lemma_encode_concat("HTTP/1.1 200 OK\nContent-Type: "@ + routes[path].0, "\r\n\r\n"@);
}

/// A request without the `GET ` prefix, without a space after its path,
/// without `HTTP/1.1\r\n` behind that space, or with a path that is not
/// UTF-8 closes the connection at once: the one action left is to finish,
/// so nothing is read, handled or sent.
pub proof fn lemma_malformed_closes<H>(
    buffer: Seq<u8>,
    root: Seq<char>,
    routes: Map<Seq<char>, (Seq<char>, H)>,
)
    requires
        ({
            ||| !has_at(buffer, 0, method_prefix())
            ||| path_end(buffer, 4) == buffer.len()
            ||| !has_at(buffer, path_end(buffer, 4) + 1, version_line())
            ||| !valid_utf8(buffer.subrange(4, path_end(buffer, 4)))
        }),
    ensures
        request_path(buffer) is Err,
        spec_step(Phase::Header, EventView::Header(buffer), root, routes) == (
            Phase::Closed,
            Plan::<H>::Finish(Outcome::Malformed(request_path(buffer)->Err_0)),
        ),
{
}

/// Phases are passed in one direction: a step leads to a later phase, or
/// closes the connection, and it closes it exactly where the action is to
/// finish.
pub proof fn lemma_phases_in_order<H>(
    phase: Phase,
    event: EventView,
    root: Seq<char>,
    routes: Map<Seq<char>, (Seq<char>, H)>,
)
    ensures
        ({
            let (next, plan) = spec_step(phase, event, root, routes);
            &&& rank(next) > rank(phase) || next == Phase::Closed
            &&& next == Phase::Closed <==> plan is Finish
        }),
{
}

} // verus!
