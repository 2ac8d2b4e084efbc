//! Runs of the connection state machine: what a whole sequence of events
//! leads to, and what holds of the requests and responses on the way.

use vstd::prelude::*;
use crate::connection::{accepts, begun, next, ActionView, EventView, StateView};
use crate::method::{is_known_method, lemma_known_name_is_word, HttpMethod};
use crate::request::{
    collected, framing_of, is_blank, lemma_request_line_reads_back, request_line, request_line_of,
    Framing, RequestView,
};
use crate::response::{body_text, response_bytes};
use crate::text::{is_word, split_at_first, trimmed, words};

verus! {

/// The state reached from `state` by `events`, and the actions asked for on
/// the way, one per event.
pub open spec fn run(state: StateView, events: Seq<EventView>) -> (StateView, Seq<ActionView>)
    decreases events.len(),
{
    if events.len() == 0 {
        (state, Seq::empty())
    } else {
        let before = run(state, events.drop_last());
        let step = next(before.0, events.last());
        (step.0, before.1.push(step.1))
    }
}

/// The events of a request line followed by header lines.
pub open spec fn head_events(line: Seq<char>, headers: Seq<Seq<char>>) -> Seq<EventView> {
    Seq::new(
        headers.len() + 1,
        |i: int|
            if i == 0 {
                EventView::Line(line)
            } else {
                EventView::Line(headers[i - 1])
            },
    )
}

/// Whether every line of `headers` is a header line: neither the end of the
/// stream nor blank.
pub open spec fn header_lines(headers: Seq<Seq<char>>) -> bool {
    forall|i: int| 0 <= i < headers.len() ==> !is_blank(#[trigger] headers[i])
}

/// The request that a request line and header lines give, before its body.
pub open spec fn request_of(line: Seq<char>, headers: Seq<Seq<char>>) -> RequestView {
    RequestView { headers: collected(headers), ..begun(request_line_of(line)->0) }
}

/// One more event extends a run by one step.
pub proof fn lemma_run_push(state: StateView, events: Seq<EventView>, event: EventView)
    ensures
        run(state, events.push(event)) == ({
            let before = run(state, events);
            let step = next(before.0, event);
            (step.0, before.1.push(step.1))
        }),
{
    assert(events.push(event).drop_last() =~= events);
}

/// A request line of three words and any number of header lines lead to the
/// state that awaits the next header line of the request they describe, and
/// every action so far asks for one more line.
pub proof fn lemma_head(line: Seq<char>, headers: Seq<Seq<char>>)
    requires
        request_line_of(line) is Some,
        header_lines(headers),
    ensures
        run(StateView::ReadRequestLine, head_events(line, headers)).0 == StateView::ReadHeaders(
            request_of(line, headers),
        ),
        run(StateView::ReadRequestLine, head_events(line, headers)).1 == Seq::new(
            headers.len() + 1,
            |i: int| ActionView::ReadLine,
        ),
    decreases headers.len(),
{
    let start = StateView::ReadRequestLine;
    if headers.len() == 0 {
        let events = head_events(line, headers);
        assert(events =~= Seq::<EventView>::empty().push(EventView::Line(line)));
        lemma_run_push(start, Seq::<EventView>::empty(), EventView::Line(line));
        assert(line.len() > 0) by {
            if line.len() == 0 {
                assert(words(trimmed(line)).len() == 0);
            }
        }
        assert(collected(headers) == Map::<Seq<char>, Seq<Seq<char>>>::empty());
        assert(run(start, events).1 =~= Seq::new(1, |i: int| ActionView::ReadLine));
    } else {
        let earlier = headers.drop_last();
        lemma_head(line, earlier);
        assert(head_events(line, headers) =~= head_events(line, earlier).push(
            EventView::Line(headers.last()),
        ));
        lemma_run_push(start, head_events(line, earlier), EventView::Line(headers.last()));
        assert(!is_blank(headers.last()));
        assert(run(start, head_events(line, headers)).1 =~= Seq::new(
            headers.len() + 1,
            |i: int| ActionView::ReadLine,
        ));
    }
}

/// A request without a `Content-Length` header is answered as soon as the
/// blank line has come: the step on the blank line asks for the response to
/// be written, never for a body to be read, the request answered has no
/// body, and once the response is flushed the next request line is awaited.
pub proof fn lemma_request_without_body(
    line: Seq<char>,
    headers: Seq<Seq<char>>,
    blank: Seq<char>,
)
    requires
        request_line_of(line) is Some,
        header_lines(headers),
        blank.len() > 0,
        is_blank(blank),
        framing_of(collected(headers)) == Framing::NoBody,
    ensures
        ({
            let request = request_of(line, headers);
            let events = head_events(line, headers).push(EventView::Line(blank));
            &&& request.body is None
            &&& run(StateView::ReadRequestLine, events).0 == StateView::WriteResponse
            &&& run(StateView::ReadRequestLine, events).1.last() == ActionView::Respond(
                request,
                response_bytes(request.method, request.path),
            )
            &&& run(StateView::ReadRequestLine, events.push(EventView::Flushed)).0
                == StateView::ReadRequestLine
            &&& run(StateView::ReadRequestLine, events.push(EventView::Flushed)).1.last()
                == ActionView::ReadLine
        }),
{
    let start = StateView::ReadRequestLine;
    let events = head_events(line, headers).push(EventView::Line(blank));
    lemma_head(line, headers);
    lemma_run_push(start, head_events(line, headers), EventView::Line(blank));
    lemma_run_push(start, events, EventView::Flushed);
}

/// A request whose first `Content-Length` value is `length` is answered
/// once exactly `length` bytes have come after the blank line: the step on
/// the blank line asks for `length` bytes, the request answered holds
/// exactly the bytes that came as its body, and once the response is flushed
/// the next request line is awaited.
pub proof fn lemma_request_with_body(
    line: Seq<char>,
    headers: Seq<Seq<char>>,
    blank: Seq<char>,
    length: usize,
    bytes: Seq<u8>,
)
    requires
        request_line_of(line) is Some,
        header_lines(headers),
        blank.len() > 0,
        is_blank(blank),
        framing_of(collected(headers)) == Framing::Length(length),
        bytes.len() == length,
    ensures
        ({
            let request = request_of(line, headers);
            let done = RequestView { body: Some(bytes), ..request };
            let framed = head_events(line, headers).push(EventView::Line(blank));
            let events = framed.push(EventView::Body(bytes));
            &&& run(StateView::ReadRequestLine, framed).0 == StateView::ReadBody(request, length)
            &&& run(StateView::ReadRequestLine, framed).1.last() == ActionView::ReadBody(length)
            &&& run(StateView::ReadRequestLine, events).0 == StateView::WriteResponse
            &&& run(StateView::ReadRequestLine, events).1.last() == ActionView::Respond(
                done,
                response_bytes(request.method, request.path),
            )
            &&& run(StateView::ReadRequestLine, events.push(EventView::Flushed)).0
                == StateView::ReadRequestLine
            &&& run(StateView::ReadRequestLine, events.push(EventView::Flushed)).1.last()
                == ActionView::ReadLine
        }),
{
    let start = StateView::ReadRequestLine;
    let framed = head_events(line, headers).push(EventView::Line(blank));
    let events = framed.push(EventView::Body(bytes));
    lemma_head(line, headers);
    lemma_run_push(start, head_events(line, headers), EventView::Line(blank));
    lemma_run_push(start, framed, EventView::Body(bytes));
    lemma_run_push(start, events, EventView::Flushed);
}

/// A request line whose first word is a known method name is read as that
/// method, and the body of the response begins with that very word,
/// followed by a space, the path and a line feed.
pub proof fn lemma_known_method_is_echoed(method: Seq<char>, path: Seq<char>, version: Seq<char>)
    requires
        is_known_method(method),
        is_word(path),
        is_word(version),
    ensures
        request_line_of(request_line(method, path, version)) == Some(
            (HttpMethod::of_token(method), path, version),
        ),
        HttpMethod::of_token(method).name() == method,
        body_text(HttpMethod::of_token(method), path) == method + " "@ + path + "\n"@,
{
    lemma_known_name_is_word(method);
    lemma_request_line_reads_back(method, path, version);
}

/// A request line whose first word is no known method name is read as
/// `UNKNOWN`, and the body of the response begins with `UNKNOWN` and a
/// space, followed by the path and a line feed.
pub proof fn lemma_other_method_is_unknown(method: Seq<char>, path: Seq<char>, version: Seq<char>)
    requires
        !is_known_method(method),
        is_word(method),
        is_word(path),
        is_word(version),
    ensures
        request_line_of(request_line(method, path, version)) == Some(
            (HttpMethod::UNKNOWN, path, version),
        ),
        body_text(HttpMethod::UNKNOWN, path) == "UNKNOWN "@ + path + "\n"@,
{
    lemma_request_line_reads_back(method, path, version);
    reveal_strlit("UNKNOWN");
    reveal_strlit(" ");
    reveal_strlit("UNKNOWN ");
    assert("UNKNOWN"@ + " "@ =~= "UNKNOWN "@);
}

/// Requests and responses are paired: a step asks for a response exactly
/// when it enters the state that waits for the response to be flushed; it
/// does so only from a request in progress, and the response is the one of
/// that request; and a new request line is awaited only after the flush.
pub proof fn lemma_response_pairing(state: StateView, event: EventView)
    ensures
        next(state, event).0 is WriteResponse <==> next(state, event).1 is Respond,
        next(state, event).1 is Respond ==> (state is ReadHeaders || state is ReadBody),
        next(state, event).1 is ReadBody ==> state is ReadHeaders,
        match (state, next(state, event).1) {
            (StateView::ReadHeaders(request), ActionView::Respond(answered, bytes)) => answered
                == request && bytes == response_bytes(request.method, request.path),
            (StateView::ReadBody(request, _), ActionView::Respond(answered, bytes)) => answered
                == (RequestView { body: answered.body, ..request }) && bytes == response_bytes(
                request.method,
                request.path,
            ),
            _ => true,
        },
        next(state, event).0 is ReadRequestLine <==> (state is WriteResponse && event is Flushed),
{
}

/// An event that the state does not accept closes the connection.
pub proof fn lemma_out_of_turn_closes(state: StateView, event: EventView)
    requires
        !accepts(state, event),
    ensures
        next(state, event) == (StateView::Closed, ActionView::Close),
{
}

/// Whether `bytes` are the response to `request`, and `request` has a body
/// exactly where it has a `Content-Length` header.
pub open spec fn well_answered(request: RequestView, bytes: Seq<u8>) -> bool {
    &&& bytes == response_bytes(request.method, request.path)
    &&& request.body is Some <==> request.headers.contains_key("Content-Length"@)
}

/// Whether `action` is what a connection in `state` is to do next, with the
/// request in progress as far as it can be in that state: without a body
/// while its headers or its body are awaited, and well answered once the
/// response is to be written.
pub open spec fn in_step(state: StateView, action: ActionView) -> bool {
    match (state, action) {
        (StateView::ReadRequestLine, ActionView::ReadLine) => true,
        (StateView::ReadHeaders(request), ActionView::ReadLine) => request.body is None,
        (StateView::ReadBody(request, length), ActionView::ReadBody(asked)) => {
            &&& asked == length
            &&& request.body is None
            &&& request.headers.contains_key("Content-Length"@)
        },
        (StateView::WriteResponse, ActionView::Respond(request, bytes)) => well_answered(
            request,
            bytes,
        ),
        (StateView::Closed, ActionView::Close) => true,
        (StateView::Closed, ActionView::Abort(_)) => true,
        _ => false,
    }
}

/// Whether `event` is what performing `action` can report.
pub open spec fn reports(action: ActionView, event: EventView) -> bool {
    match (action, event) {
        (ActionView::ReadLine, EventView::Line(_)) => true,
        (ActionView::ReadBody(_), EventView::Body(_)) => true,
        (ActionView::Respond(_, _), EventView::Flushed) => true,
        _ => false,
    }
}

/// A connection that starts by awaiting a request line, and is told what
/// its actions led to, stays in step for ever: the states follow in their
/// one order, a request gets a body only through a `Content-Length` header,
/// and whatever is to be written is the response to the request just read.
pub proof fn lemma_stays_in_step(state: StateView, action: ActionView, event: EventView)
    requires
        in_step(state, action),
        reports(action, event),
    ensures
        in_step(next(state, event).0, next(state, event).1),
        accepts(state, event),
{
}

/// A header line without a colon changes nothing: the request in progress
/// stays as it is and the next line is asked for.
pub proof fn lemma_line_without_colon_is_skipped(request: RequestView, raw: Seq<char>)
    requires
        !is_blank(raw),
        split_at_first(trimmed(raw), ':') is None,
    ensures
        next(StateView::ReadHeaders(request), EventView::Line(raw)) == (
            StateView::ReadHeaders(request),
            ActionView::ReadLine,
        ),
{
}

/// The end of the stream while a request line or a header line is awaited
/// closes the connection without an error and without a response.
pub proof fn lemma_end_of_stream_closes(request: RequestView)
    ensures
        next(StateView::ReadRequestLine, EventView::Line(Seq::empty())) == (
            StateView::Closed,
            ActionView::Close,
        ),
        next(StateView::ReadHeaders(request), EventView::Line(Seq::empty())) == (
            StateView::Closed,
            ActionView::Close,
        ),
{
}

} // verus!
