//! The connection state machine. It owns every decision of the handling
//! loop and no stream: whoever drives it performs the action it asks for and
//! reports what came of it as the next event.
//!
//! Per request the states follow in one order: `ReadRequestLine`,
//! `ReadHeaders`, `ReadBody` (only where a length was announced),
//! `WriteResponse`, and back to `ReadRequestLine`.

use vstd::prelude::*;
use crate::headers::Headers;
use crate::method::HttpMethod;
use crate::request::{
    framing, framing_of, is_blank, parse_header_line, parse_request_line, request_line_of,
    with_line, Framing, HttpRequest, RequestView,
};
use crate::response::{response, response_bytes};
use crate::text::trim;

verus! {

/// Why a connection is aborted.
#[derive(Debug, Clone, Copy, PartialEq, Eq, Structural)]
pub enum ParseError {
    /// The request line does not have exactly three words.
    InvalidRequestLine,
    /// The first `Content-Length` value is not a valid length.
    InvalidContentLength,
    /// The stream ended before the announced body was complete.
    TruncatedBody,
}

/// Where a connection stands.
#[derive(Debug)]
pub enum State {
    /// Waiting for the request line of the next request.
    ReadRequestLine,
    /// Waiting for a header line of the request begun.
    ReadHeaders(HttpRequest),
    /// Waiting for a body of the given length.
    ReadBody(HttpRequest, usize),
    /// Waiting until the response has been written and flushed.
    WriteResponse,
    /// The connection is over.
    Closed,
}

/// What happened on the stream.
#[derive(Debug)]
pub enum Event {
    /// A line was read, given as it came, line terminator included. The
    /// empty line stands for the end of the stream.
    Line(String),
    /// The bytes that a read of the body gave.
    Body(Vec<u8>),
    /// The response was written and flushed.
    Flushed,
}

/// What to do on the stream next.
#[derive(Debug)]
pub enum Action {
    /// Read one line.
    ReadLine,
    /// Read exactly this many bytes.
    ReadBody(usize),
    /// Write these bytes in answer to this request, and flush.
    Respond(HttpRequest, Vec<u8>),
    /// Stop: the peer has closed the stream between or within requests.
    Close,
    /// Stop with an error.
    Abort(ParseError),
}

/// The view of a `State`.
pub enum StateView {
    ReadRequestLine,
    ReadHeaders(RequestView),
    ReadBody(RequestView, usize),
    WriteResponse,
    Closed,
}

/// The view of an `Event`.
pub enum EventView {
    Line(Seq<char>),
    Body(Seq<u8>),
    Flushed,
}

/// The view of an `Action`.
pub enum ActionView {
    ReadLine,
    ReadBody(usize),
    Respond(RequestView, Seq<u8>),
    Close,
    Abort(ParseError),
}

impl View for State {
    type V = StateView;

    open spec fn view(&self) -> StateView {
        match self {
            State::ReadRequestLine => StateView::ReadRequestLine,
            State::ReadHeaders(request) => StateView::ReadHeaders(request@),
            State::ReadBody(request, length) => StateView::ReadBody(request@, *length),
            State::WriteResponse => StateView::WriteResponse,
            State::Closed => StateView::Closed,
        }
    }
}

impl View for Event {
    type V = EventView;

    open spec fn view(&self) -> EventView {
        match self {
            Event::Line(raw) => EventView::Line(raw@),
            Event::Body(bytes) => EventView::Body(bytes@),
            Event::Flushed => EventView::Flushed,
        }
    }
}

impl View for Action {
    type V = ActionView;

    open spec fn view(&self) -> ActionView {
        match self {
            Action::ReadLine => ActionView::ReadLine,
            Action::ReadBody(length) => ActionView::ReadBody(*length),
            Action::Respond(request, bytes) => ActionView::Respond(request@, bytes@),
            Action::Close => ActionView::Close,
            Action::Abort(error) => ActionView::Abort(*error),
        }
    }
}

impl State {
    /// The request in progress, if any, is well formed.
    pub open spec fn wf(&self) -> bool {
        match self {
            State::ReadHeaders(request) => request.wf(),
            State::ReadBody(request, _) => request.wf(),
            _ => true,
        }
    }
}

impl Action {
    /// The request answered, if any, is well formed.
    pub open spec fn wf(&self) -> bool {
        match self {
            Action::Respond(request, _) => request.wf(),
            _ => true,
        }
    }
}

/// Whether `event` is one that can come in `state`: a line while a line is
/// awaited, bytes while a body is awaited, the flush while a response is
/// being written.
pub open spec fn accepts(state: StateView, event: EventView) -> bool {
    match (state, event) {
        (StateView::ReadRequestLine, EventView::Line(_)) => true,
        (StateView::ReadHeaders(_), EventView::Line(_)) => true,
        (StateView::ReadBody(_, _), EventView::Body(_)) => true,
        (StateView::WriteResponse, EventView::Flushed) => true,
        _ => false,
    }
}

/// The request that a request line begins: no headers yet, no body.
pub open spec fn begun(parts: (HttpMethod, Seq<char>, Seq<char>)) -> RequestView {
    RequestView {
        method: parts.0,
        path: parts.1,
        version: parts.2,
        headers: Map::empty(),
        body: None,
    }
}

/// After a line read while a request line is awaited. The end of the stream
/// closes the connection; a line of three words begins a request; any other
/// line aborts.
pub open spec fn after_request_line(raw: Seq<char>) -> (StateView, ActionView) {
    if raw.len() == 0 {
        (StateView::Closed, ActionView::Close)
    } else {
        match request_line_of(raw) {
            Some(parts) => (StateView::ReadHeaders(begun(parts)), ActionView::ReadLine),
            None => (StateView::Closed, ActionView::Abort(ParseError::InvalidRequestLine)),
        }
    }
}

/// After the blank line that ends the headers of `request`.
pub open spec fn after_headers(request: RequestView) -> (StateView, ActionView) {
    match framing_of(request.headers) {
        Framing::NoBody => (
            StateView::WriteResponse,
            ActionView::Respond(request, response_bytes(request.method, request.path)),
        ),
        Framing::Length(n) => (StateView::ReadBody(request, n), ActionView::ReadBody(n)),
        Framing::Invalid => (
            StateView::Closed,
            ActionView::Abort(ParseError::InvalidContentLength),
        ),
    }
}

/// After a line read while the headers of `request` are awaited. The end of
/// the stream closes the connection and drops the request; a blank line ends
/// the headers; any other line is a header line.
pub open spec fn after_header_line(request: RequestView, raw: Seq<char>) -> (
    StateView,
    ActionView,
) {
    if raw.len() == 0 {
        (StateView::Closed, ActionView::Close)
    } else if is_blank(raw) {
        after_headers(request)
    } else {
        (
            StateView::ReadHeaders(
                RequestView { headers: with_line(request.headers, raw), ..request },
            ),
            ActionView::ReadLine,
        )
    }
}

/// After a read of the body of `request`, of which `length` bytes were
/// announced. Exactly that many bytes complete the request; any other
/// number aborts.
pub open spec fn after_body(request: RequestView, length: usize, bytes: Seq<u8>) -> (
    StateView,
    ActionView,
) {
    if bytes.len() == length {
        let done = RequestView { body: Some(bytes), ..request };
        (
            StateView::WriteResponse,
            ActionView::Respond(done, response_bytes(request.method, request.path)),
        )
    } else {
        (StateView::Closed, ActionView::Abort(ParseError::TruncatedBody))
    }
}

/// The transition function: the state that follows `state` on `event`, and
/// the action to perform. On an event that `state` does not accept the
/// connection is closed.
pub open spec fn next(state: StateView, event: EventView) -> (StateView, ActionView) {
    match (state, event) {
        (StateView::ReadRequestLine, EventView::Line(raw)) => after_request_line(raw),
        (StateView::ReadHeaders(request), EventView::Line(raw)) => after_header_line(request, raw),
        (StateView::ReadBody(request, length), EventView::Body(bytes)) => after_body(
            request,
            length,
            bytes,
        ),
        (StateView::WriteResponse, EventView::Flushed) => (
            StateView::ReadRequestLine,
            ActionView::ReadLine,
        ),
        _ => (StateView::Closed, ActionView::Close),
    }
}

/// Handles a line read while a request line is awaited.
pub fn on_request_line(raw: &str) -> (r: (State, Action))
    ensures
        r.0.wf(),
        r.1.wf(),
        (r.0@, r.1@) == after_request_line(raw@),
{
    if raw.is_empty() {
        return (State::Closed, Action::Close);
    }
    match parse_request_line(raw) {
        Some((method, path, version)) => {
            let headers = Headers::new();
            let request = HttpRequest { method, path, version, headers, body: None };
            (State::ReadHeaders(request), Action::ReadLine)
        },
        None => (State::Closed, Action::Abort(ParseError::InvalidRequestLine)),
    }
}

/// Handles a line read while the headers of `request` are awaited.
pub fn on_header_line(request: HttpRequest, raw: &str) -> (r: (State, Action))
    requires
        request.wf(),
    ensures
        r.0.wf(),
        r.1.wf(),
        (r.0@, r.1@) == after_header_line(request@, raw@),
{
    if raw.is_empty() {
        return (State::Closed, Action::Close);
    }
    if trim(raw).is_empty() {
        return match framing(&request.headers) {
            Framing::NoBody => {
                let bytes = response(request.method, request.path.as_str());
                (State::WriteResponse, Action::Respond(request, bytes))
            },
            Framing::Length(n) => (State::ReadBody(request, n), Action::ReadBody(n)),
            Framing::Invalid => (State::Closed, Action::Abort(ParseError::InvalidContentLength)),
        };
    }
    let mut request = request;
    match parse_header_line(raw) {
        Some((name, value)) => {
            request.headers.append(name, value);
        },
        None => {},
    }
    (State::ReadHeaders(request), Action::ReadLine)
}

/// Handles the bytes read as the body of `request`.
pub fn on_body(request: HttpRequest, length: usize, bytes: Vec<u8>) -> (r: (State, Action))
    requires
        request.wf(),
    ensures
        r.0.wf(),
        r.1.wf(),
        (r.0@, r.1@) == after_body(request@, length, bytes@),
{
    if bytes.len() != length {
        return (State::Closed, Action::Abort(ParseError::TruncatedBody));
    }
    let mut request = request;
    request.body = Some(bytes);
    let out = response(request.method, request.path.as_str());
    (State::WriteResponse, Action::Respond(request, out))
}

/// Takes one step: from `state` and the `event` that came, the state that
/// follows and the action to perform. An event that `state` does not accept
/// closes the connection.
pub fn step(state: State, event: Event) -> (r: (State, Action))
    requires
        state.wf(),
    ensures
        r.0.wf(),
        r.1.wf(),
        (r.0@, r.1@) == next(state@, event@),
{
    match (state, event) {
        (State::ReadRequestLine, Event::Line(raw)) => on_request_line(raw.as_str()),
        (State::ReadHeaders(request), Event::Line(raw)) => on_header_line(request, raw.as_str()),
        (State::ReadBody(request, length), Event::Body(bytes)) => on_body(request, length, bytes),
        (State::WriteResponse, Event::Flushed) => (State::ReadRequestLine, Action::ReadLine),
        _ => (State::Closed, Action::Close),
    }
}

} // verus!
