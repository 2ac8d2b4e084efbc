//! A whole connection over a recorded input: the bytes that the peer sent,
//! answered as the state machine decides, one step after the other.

use vstd::prelude::*;
use vstd::slice::slice_subrange;
use vstd::string::StringExecFns;
use vstd::string::StringSliceAdditionalSpecFns;
use vstd::utf8::{decode_utf8, valid_utf8};
use crate::connection::{
    next, step, Action, ActionView, Event, EventView, ParseError, State, StateView,
};
use crate::request::{framing_of, is_blank, Framing, HttpRequest, RequestView};
use crate::response::response_bytes;
use crate::runs::{in_step, lemma_stays_in_step};

verus! {

/// How a connection ended.
#[derive(Debug, Clone, Copy, PartialEq, Eq, Structural)]
pub enum Outcome {
    /// The peer closed the stream between requests or within the headers.
    Closed,
    /// A request was malformed.
    Aborted(ParseError),
    /// A line was not valid UTF-8, which a reader of lines reports as a
    /// failed read.
    InvalidEncoding,
}

/// What a connection produced.
#[derive(Debug)]
pub struct Transcript {
    /// The bytes written to the peer.
    pub output: Vec<u8>,
    /// The requests answered, in order.
    pub requests: Vec<HttpRequest>,
    /// How the connection ended.
    pub outcome: Outcome,
}

/// The view of a `Transcript`.
pub struct TranscriptView {
    pub output: Seq<u8>,
    pub requests: Seq<RequestView>,
    pub outcome: Outcome,
}

/// The views of a sequence of requests.
pub open spec fn request_views(requests: Seq<HttpRequest>) -> Seq<RequestView> {
    Seq::new(requests.len(), |i: int| requests[i]@)
}

impl View for Transcript {
    type V = TranscriptView;

    open spec fn view(&self) -> TranscriptView {
        TranscriptView {
            output: self.output@,
            requests: request_views(self.requests@),
            outcome: self.outcome,
        }
    }
}

/// The transcript of a connection that ends at once.
pub open spec fn ended(outcome: Outcome) -> TranscriptView {
    TranscriptView { output: Seq::empty(), requests: Seq::empty(), outcome }
}

/// The transcript `rest` after `output` was written in answer to `requests`.
pub open spec fn preceded(
    output: Seq<u8>,
    requests: Seq<RequestView>,
    rest: TranscriptView,
) -> TranscriptView {
    TranscriptView {
        output: output + rest.output,
        requests: requests + rest.requests,
        outcome: rest.outcome,
    }
}

/// Where the line that starts at `pos` ends: behind the first line feed at
/// or after `pos`, or at the end of the input where there is none.
pub open spec fn line_end(input: Seq<u8>, pos: int) -> int
    decreases input.len() - pos,
{
    if 0 <= pos < input.len() {
        if input[pos] == 10u8 {
            pos + 1
        } else {
            line_end(input, pos + 1)
        }
    } else {
        pos
    }
}

/// Where a read of `length` bytes from `pos` ends: `length` bytes on, or at
/// the end of the input where fewer are left.
pub open spec fn body_end(input: Seq<u8>, pos: int, length: usize) -> int {
    if input.len() - pos < length {
        input.len() as int
    } else {
        pos + length
    }
}

/// How many steps an action is away from the next read of a line at most.
pub open spec fn rank(action: ActionView) -> nat {
    match action {
        ActionView::ReadBody(_) => 3,
        ActionView::Respond(_, _) => 2,
        ActionView::ReadLine => 1,
        _ => 0,
    }
}

/// A line ends behind its start and within the input, and behind its start
/// wherever input is left.
pub proof fn lemma_line_end_bounds(input: Seq<u8>, pos: int)
    requires
        0 <= pos <= input.len(),
    ensures
        pos <= line_end(input, pos) <= input.len(),
        pos < input.len() ==> pos < line_end(input, pos),
    decreases input.len() - pos,
{
    if pos < input.len() && input[pos] != 10u8 {
        lemma_line_end_bounds(input, pos + 1);
    }
}

/// The transcript of the connection that stands in `state`, is to perform
/// `action` next, and has read the first `pos` bytes of `input`.
///
/// A line is read up to and including its line feed and must be valid
/// UTF-8; a body is read as far as the input reaches; a response is written
/// whole before anything more is read.
pub open spec fn served(
    state: StateView,
    action: ActionView,
    input: Seq<u8>,
    pos: int,
) -> TranscriptView
    decreases input.len() - pos, rank(action),
{
    if pos < 0 || pos > input.len() {
        ended(Outcome::Closed)
    } else {
        match action {
            ActionView::ReadLine => {
                let end = line_end(input, pos);
                let bytes = input.subrange(pos, end);
                if valid_utf8(bytes) {
                    let step = next(state, EventView::Line(decode_utf8(bytes)));
                    proof {
                        lemma_line_end_bounds(input, pos);
                    }
                    served(step.0, step.1, input, end)
                } else {
                    ended(Outcome::InvalidEncoding)
                }
            },
            ActionView::ReadBody(length) => {
                let end = body_end(input, pos, length);
                let step = next(state, EventView::Body(input.subrange(pos, end)));
                served(step.0, step.1, input, end)
            },
            ActionView::Respond(request, bytes) => {
                let step = next(state, EventView::Flushed);
                preceded(bytes, seq![request], served(step.0, step.1, input, pos))
            },
            ActionView::Close => ended(Outcome::Closed),
            ActionView::Abort(error) => ended(Outcome::Aborted(error)),
        }
    }
}

/// A connection on which nothing was sent ends normally, with no request
/// answered and nothing written.
pub proof fn lemma_nothing_sent()
    ensures
        served(StateView::ReadRequestLine, ActionView::ReadLine, Seq::empty(), 0) == ended(
            Outcome::Closed,
        ),
{
    let input = Seq::<u8>::empty();
    assert(input.subrange(0, 0) =~= input);
    assert(valid_utf8(input));
    assert(decode_utf8(input).len() == 0);
    let step = next(StateView::ReadRequestLine, EventView::Line(decode_utf8(input)));
    assert(step.1 == ActionView::Close);
    assert(served(step.0, step.1, input, 0) == ended(Outcome::Closed));
}

/// Whether the line that starts at `pos` is a blank line: some bytes, valid
/// UTF-8, nothing but whitespace.
pub open spec fn blank_line_at(input: Seq<u8>, pos: int) -> bool {
    &&& 0 <= pos < input.len()
    &&& valid_utf8(input.subrange(pos, line_end(input, pos)))
    &&& is_blank(decode_utf8(input.subrange(pos, line_end(input, pos))))
}

/// Where the headers hold no `Content-Length`, the blank line ends the
/// request: it is answered at once, it has no body, and the next request
/// line is read from the first byte behind the blank line, so no byte is
/// taken as a body.
pub proof fn lemma_request_ends_at_blank_line(request: RequestView, input: Seq<u8>, pos: int)
    requires
        blank_line_at(input, pos),
        framing_of(request.headers) == Framing::NoBody,
    ensures
        served(StateView::ReadHeaders(request), ActionView::ReadLine, input, pos) == preceded(
            response_bytes(request.method, request.path),
            seq![request],
            served(StateView::ReadRequestLine, ActionView::ReadLine, input, line_end(input, pos)),
        ),
{
    let end = line_end(input, pos);
    let line = input.subrange(pos, end);
    lemma_line_end_bounds(input, pos);
    assert(decode_utf8(line).len() > 0);
    let first = next(StateView::ReadHeaders(request), EventView::Line(decode_utf8(line)));
    assert(first.0 == StateView::WriteResponse);
    let second = next(first.0, EventView::Flushed);
    assert(served(first.0, first.1, input, end) == preceded(
        response_bytes(request.method, request.path),
        seq![request],
        served(second.0, second.1, input, end),
    ));
}

/// Where the first `Content-Length` value is `length` and at least so many
/// bytes follow the blank line, the body of the request is exactly the
/// `length` bytes behind the blank line, the request is answered, and the
/// next request line is read from the first byte behind the body.
pub proof fn lemma_body_follows_blank_line(
    request: RequestView,
    input: Seq<u8>,
    pos: int,
    length: usize,
)
    requires
        blank_line_at(input, pos),
        framing_of(request.headers) == Framing::Length(length),
        line_end(input, pos) + length <= input.len(),
    ensures
        ({
            let end = line_end(input, pos);
            let body = input.subrange(end, end + length);
            served(StateView::ReadHeaders(request), ActionView::ReadLine, input, pos) == preceded(
                response_bytes(request.method, request.path),
                seq![RequestView { body: Some(body), ..request }],
                served(StateView::ReadRequestLine, ActionView::ReadLine, input, end + length),
            )
        }),
{
    let end = line_end(input, pos);
    let line = input.subrange(pos, end);
    let body = input.subrange(end, end + length);
    let done = RequestView { body: Some(body), ..request };
    lemma_line_end_bounds(input, pos);
    assert(decode_utf8(line).len() > 0);
    let first = next(StateView::ReadHeaders(request), EventView::Line(decode_utf8(line)));
    assert(first == (StateView::ReadBody(request, length), ActionView::ReadBody(length)));
    assert(body_end(input, end, length) == end + length);
    let second = next(first.0, EventView::Body(body));
    assert(second.0 == StateView::WriteResponse);
    assert(served(first.0, first.1, input, end) == served(second.0, second.1, input, end + length));
    let third = next(second.0, EventView::Flushed);
    assert(served(second.0, second.1, input, end + length) == preceded(
        response_bytes(request.method, request.path),
        seq![done],
        served(third.0, third.1, input, end + length),
    ));
}

/// Where fewer bytes follow the blank line than the first `Content-Length`
/// value announces, the connection is aborted and the request is not
/// answered.
pub proof fn lemma_short_body_aborts(request: RequestView, input: Seq<u8>, pos: int, length: usize)
    requires
        blank_line_at(input, pos),
        framing_of(request.headers) == Framing::Length(length),
        line_end(input, pos) + length > input.len(),
    ensures
        served(StateView::ReadHeaders(request), ActionView::ReadLine, input, pos) == ended(
            Outcome::Aborted(ParseError::TruncatedBody),
        ),
{
    let end = line_end(input, pos);
    let line = input.subrange(pos, end);
    lemma_line_end_bounds(input, pos);
    assert(decode_utf8(line).len() > 0);
    let first = next(StateView::ReadHeaders(request), EventView::Line(decode_utf8(line)));
    assert(first == (StateView::ReadBody(request, length), ActionView::ReadBody(length)));
    let stop = body_end(input, end, length);
    assert(stop == input.len());
    let second = next(first.0, EventView::Body(input.subrange(end, stop)));
    assert(second.1 == ActionView::Abort(ParseError::TruncatedBody));
    assert(served(first.0, first.1, input, end) == served(second.0, second.1, input, stop));
}

/// The responses to `requests`, one after the other.
pub open spec fn responses_to(requests: Seq<RequestView>) -> Seq<u8>
    decreases requests.len(),
{
    if requests.len() == 0 {
        Seq::empty()
    } else {
        response_bytes(requests[0].method, requests[0].path) + responses_to(requests.drop_first())
    }
}

/// Whether a transcript pairs requests and responses: what was written is
/// exactly one response per request answered, in the order of the requests,
/// and a request has a body exactly where it has a `Content-Length` header.
pub open spec fn paired(t: TranscriptView) -> bool {
    &&& t.output == responses_to(t.requests)
    &&& forall|i: int|
        0 <= i < t.requests.len() ==> ((#[trigger] t.requests[i]).body is Some
            <==> t.requests[i].headers.contains_key("Content-Length"@))
}

/// Whatever the peer sends, the transcript of a connection that is in step
/// pairs requests and responses.
pub proof fn lemma_transcript_is_paired(
    state: StateView,
    action: ActionView,
    input: Seq<u8>,
    pos: int,
)
    requires
        in_step(state, action),
    ensures
        paired(served(state, action, input, pos)),
    decreases input.len() - pos, rank(action),
{
    let t = served(state, action, input, pos);
    if pos < 0 || pos > input.len() {
        assert(t.output =~= responses_to(t.requests));
    } else {
        match action {
            ActionView::ReadLine => {
                let end = line_end(input, pos);
                let bytes = input.subrange(pos, end);
                lemma_line_end_bounds(input, pos);
                if valid_utf8(bytes) {
                    let step = next(state, EventView::Line(decode_utf8(bytes)));
                    lemma_stays_in_step(state, action, EventView::Line(decode_utf8(bytes)));
                    if end == pos {
                        assert(decode_utf8(bytes).len() == 0);
                        assert(step.1 == ActionView::Close);
                    }
                    lemma_transcript_is_paired(step.0, step.1, input, end);
                } else {
                    assert(t.output =~= responses_to(t.requests));
                }
            },
            ActionView::ReadBody(length) => {
                let end = body_end(input, pos, length);
                let event = EventView::Body(input.subrange(pos, end));
                lemma_stays_in_step(state, action, event);
                lemma_transcript_is_paired(next(state, event).0, next(state, event).1, input, end);
            },
            ActionView::Respond(request, bytes) => {
                let step = next(state, EventView::Flushed);
                lemma_stays_in_step(state, action, EventView::Flushed);
                lemma_transcript_is_paired(step.0, step.1, input, pos);
                let rest = served(step.0, step.1, input, pos);
                assert(t == preceded(bytes, seq![request], rest));
                assert(t.requests.drop_first() =~= rest.requests);
                assert(t.requests[0] == request);
                assert forall|i: int| 0 <= i < t.requests.len() implies ((
                #[trigger] t.requests[i]).body is Some <==> t.requests[i].headers.contains_key(
                    "Content-Length"@,
                )) by {
                    if i > 0 {
                        assert(t.requests[i] == rest.requests[i - 1]);
                    }
                }
            },
            _ => {
                assert(t.output =~= responses_to(t.requests));
            },
        }
    }
}

/// The text that `bytes` hold, if they are valid UTF-8.
///
/// Calls `std::str::from_utf8`. Believed of it: where it succeeds, the
/// string slice consists of exactly the given bytes; where it fails, the
/// bytes are not valid UTF-8.
#[verifier::external_body]
fn text_of(bytes: &[u8]) -> (r: Option<&str>)
    ensures
        match r {
            Some(text) => text.spec_bytes() == bytes@,
            None => !valid_utf8(bytes@),
        },
{
    match std::str::from_utf8(bytes) {
        Ok(text) => Some(text),
        Err(_) => None,
    }
}

/// Finds the end of the line that starts at `pos`.
pub fn find_line_end(input: &[u8], pos: usize) -> (end: usize)
    requires
        pos <= input@.len(),
    ensures
        end == line_end(input@, pos as int),
        pos <= end <= input@.len(),
{
    proof {
        lemma_line_end_bounds(input@, pos as int);
    }
    let mut i: usize = pos;
    while i < input.len()
        invariant
            pos <= i <= input@.len(),
            line_end(input@, pos as int) == line_end(input@, i as int),
        decreases input@.len() - i,
    {
        if input[i] == 10u8 {
            return i + 1;
        }
        i += 1;
    }
    i
}

/// Runs a whole connection on the bytes that the peer sent.
pub fn serve(input: &[u8]) -> (t: Transcript)
    ensures
        t@ == served(StateView::ReadRequestLine, ActionView::ReadLine, input@, 0),
        paired(t@),
{
    proof {
        lemma_transcript_is_paired(StateView::ReadRequestLine, ActionView::ReadLine, input@, 0);
    }
    let ghost total = served(StateView::ReadRequestLine, ActionView::ReadLine, input@, 0);
    let mut output: Vec<u8> = Vec::new();
    let mut requests: Vec<HttpRequest> = Vec::new();
    let mut state = State::ReadRequestLine;
    let mut action = Action::ReadLine;
    let mut pos: usize = 0;
    assert(preceded(output@, request_views(requests@), total) =~= total);
    loop
        invariant
            state.wf(),
            action.wf(),
            pos <= input@.len(),
            total == served(StateView::ReadRequestLine, ActionView::ReadLine, input@, 0),
            paired(total),
            total == preceded(
                output@,
                request_views(requests@),
                served(state@, action@, input@, pos as int),
            ),
        decreases input@.len() - pos, rank(action@),
    {
        let ghost here = served(state@, action@, input@, pos as int);
        let ghost from = state@;
        let ghost start = pos as int;
        let event = match action {
            Action::ReadLine => {
                let end = find_line_end(input, pos);
                match text_of(slice_subrange(input, pos, end)) {
                    Some(text) => {
                        proof {
                            lemma_line_end_bounds(input@, start);
                            let bytes = input@.subrange(start, end as int);
                            assert(bytes == vstd::utf8::encode_utf8(text@));
                            vstd::utf8::encode_utf8_valid_utf8(text@);
                            vstd::utf8::encode_utf8_decode_utf8(text@);
                            assert(decode_utf8(bytes) == text@);
                            let step = next(from, EventView::Line(text@));
                            assert(here == served(step.0, step.1, input@, end as int));
                        }
                        pos = end;
                        Event::Line(String::from_str(text))
                    },
                    None => {
                        let t = Transcript { output, requests, outcome: Outcome::InvalidEncoding };
                        assert(t@ =~= total);
                        return t;
                    },
                }
            },
            Action::ReadBody(length) => {
                let end = if input.len() - pos < length {
                    input.len()
                } else {
                    pos + length
                };
                let bytes = vstd::slice::slice_to_vec(slice_subrange(input, pos, end));
                proof {
                    assert(end == body_end(input@, start, length));
                    let step = next(from, EventView::Body(bytes@));
                    assert(here == served(step.0, step.1, input@, end as int));
                }
                pos = end;
                Event::Body(bytes)
            },
            Action::Respond(request, bytes) => {
                let ghost before = (output@, request_views(requests@));
                let ghost answered = request@;
                let ghost written = bytes@;
                let mut bytes = bytes;
                output.append(&mut bytes);
                requests.push(request);
                proof {
                    assert(request_views(requests@) =~= before.1 + seq![answered]);
                    let step = next(from, EventView::Flushed);
                    let rest = served(step.0, step.1, input@, start);
                    assert(here == preceded(written, seq![answered], rest));
                    assert(before.0 + (written + rest.output) =~= output@ + rest.output);
                    assert(before.1 + (seq![answered] + rest.requests) =~= request_views(requests@)
                        + rest.requests);
                    assert(preceded(before.0, before.1, here) == preceded(
                        output@,
                        request_views(requests@),
                        rest,
                    ));
                }
                Event::Flushed
            },
            Action::Close => {
                let t = Transcript { output, requests, outcome: Outcome::Closed };
                assert(t@ =~= total);
                return t;
            },
            Action::Abort(error) => {
                let t = Transcript { output, requests, outcome: Outcome::Aborted(error) };
                assert(t@ =~= total);
                return t;
            },
        };
        let r = step(state, event);
        state = r.0;
        action = r.1;
        assert(total =~= preceded(
            output@,
            request_views(requests@),
            served(state@, action@, input@, pos as int),
        ));
    }
}

} // verus!
