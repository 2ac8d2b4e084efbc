use std::io::{BufRead, BufReader, Cursor, Read, Write};

use mini_http::connection::{on_body, on_header_line, on_request_line, step};
use mini_http::connection::{Action, Event, ParseError, State};
use mini_http::headers::Headers;
use mini_http::method::HttpMethod;
use mini_http::request::HttpRequest;
use mini_http::stream::{find_line_end, serve, Outcome};

/// Drives the state machine over an in-memory stream, as a server would over
/// a socket. Returns the bytes written, the requests answered, and the error
/// that ended the connection, if any.
fn drive(input: &[u8]) -> (Vec<u8>, Vec<HttpRequest>, Option<ParseError>, usize) {
    let mut reader = BufReader::new(Cursor::new(input.to_vec()));
    let mut written: Vec<u8> = Vec::new();
    let mut requests: Vec<HttpRequest> = Vec::new();
    let mut state = State::ReadRequestLine;
    let mut action = Action::ReadLine;
    loop {
        let event = match action {
            Action::ReadLine => {
                let mut buf = String::new();
                reader.read_line(&mut buf).unwrap();
                Event::Line(buf)
            }
            Action::ReadBody(n) => {
                let mut body = Vec::new();
                (&mut reader).take(n as u64).read_to_end(&mut body).unwrap();
                Event::Body(body)
            }
            Action::Respond(request, bytes) => {
                written.write_all(&bytes).unwrap();
                requests.push(request);
                Event::Flushed
            }
            Action::Close => {
                let mut rest = Vec::new();
                reader.read_to_end(&mut rest).unwrap();
                return (written, requests, None, rest.len());
            }
            Action::Abort(error) => {
                let mut rest = Vec::new();
                reader.read_to_end(&mut rest).unwrap();
                return (written, requests, Some(error), rest.len());
            }
        };
        let next = step(state, event);
        state = next.0;
        action = next.1;
    }
}

fn values(headers: &Headers, name: &str) -> Option<Vec<String>> {
    headers.get(name).cloned()
}

#[test]
fn get_hello_gives_the_fixed_response() {
    let (written, requests, error, _) = drive(b"GET /hello HTTP/1.1\r\nHost: x\r\n\r\n");
    assert_eq!(
        written,
        b"HTTP/1.1 200 OK\r\nContent-Type: text/plain\r\nContent-Length: 11\r\n\r\nGET /hello\n"
            .to_vec()
    );
    assert_eq!(error, None);
    assert_eq!(requests.len(), 1);
    assert_eq!(requests[0].method, HttpMethod::GET);
    assert_eq!(requests[0].path, "/hello");
    assert_eq!(requests[0].version, "HTTP/1.1");
    assert_eq!(values(&requests[0].headers, "Host"), Some(vec!["x".to_string()]));
    assert_eq!(requests[0].body, None);
}

#[test]
fn post_with_content_length_captures_the_body() {
    let (written, requests, error, _) =
        drive(b"POST /a HTTP/1.1\r\nContent-Length: 5\r\n\r\nhello");
    assert_eq!(error, None);
    assert_eq!(requests.len(), 1);
    assert_eq!(requests[0].method, HttpMethod::POST);
    assert_eq!(requests[0].body, Some(b"hello".to_vec()));
    assert_eq!(
        written,
        b"HTTP/1.1 200 OK\r\nContent-Type: text/plain\r\nContent-Length: 8\r\n\r\nPOST /a\n".to_vec()
    );
}

#[test]
fn empty_input_ends_normally_without_response() {
    let (written, requests, error, _) = drive(b"");
    assert_eq!(error, None);
    assert!(written.is_empty());
    assert!(requests.is_empty());
}

#[test]
fn one_token_request_line_aborts_without_response() {
    let (written, requests, error, _) = drive(b"BADLINE\r\n\r\n");
    assert_eq!(error, Some(ParseError::InvalidRequestLine));
    assert!(written.is_empty());
    assert!(requests.is_empty());
}

#[test]
fn request_line_needs_exactly_three_words() {
    for line in ["\r\n", "GET\r\n", "GET /\r\n", "GET / HTTP/1.1 extra\r\n", "   \n"] {
        let (state, action) = on_request_line(line);
        assert!(matches!(state, State::Closed), "{:?}", line);
        assert!(matches!(action, Action::Abort(ParseError::InvalidRequestLine)), "{:?}", line);
    }
    let (state, action) = on_request_line("  GET\t/x   HTTP/1.0  \r\n");
    assert!(matches!(action, Action::ReadLine));
    match state {
        State::ReadHeaders(request) => {
            assert_eq!(request.method, HttpMethod::GET);
            assert_eq!(request.path, "/x");
            assert_eq!(request.version, "HTTP/1.0");
            assert_eq!(request.body, None);
            assert!(!request.headers.contains("Host"));
        }
        other => panic!("unexpected state {:?}", other),
    }
}

#[test]
fn request_line_without_terminator_is_still_a_line() {
    let (written, _, error, _) = drive(b"BADLINE");
    assert_eq!(error, Some(ParseError::InvalidRequestLine));
    assert!(written.is_empty());
}

#[test]
fn unknown_method_is_echoed_as_unknown() {
    let (written, requests, error, _) = drive(b"FOO /x HTTP/1.1\r\n\r\n");
    assert_eq!(error, None);
    assert_eq!(requests[0].method, HttpMethod::UNKNOWN);
    assert_eq!(
        written,
        b"HTTP/1.1 200 OK\r\nContent-Type: text/plain\r\nContent-Length: 11\r\n\r\nUNKNOWN /x\n"
            .to_vec()
    );
}

#[test]
fn known_methods_are_echoed_letter_for_letter() {
    for name in ["GET", "POST", "PUT", "DELETE", "PATCH", "HEAD", "OPTIONS", "CONNECT", "TRACE"] {
        let input = format!("{} /p HTTP/1.1\r\n\r\n", name);
        let (written, _, error, _) = drive(input.as_bytes());
        assert_eq!(error, None);
        let body = format!("{} /p\n", name);
        let expected = format!(
            "HTTP/1.1 200 OK\r\nContent-Type: text/plain\r\nContent-Length: {}\r\n\r\n{}",
            body.len(),
            body
        );
        assert_eq!(written, expected.into_bytes());
    }
}

#[test]
fn repeated_header_keeps_both_values_in_order() {
    let (_, requests, error, _) =
        drive(b"GET / HTTP/1.1\r\nAccept: a\r\nHost: h\r\nAccept: b\r\n\r\n");
    assert_eq!(error, None);
    assert_eq!(
        values(&requests[0].headers, "Accept"),
        Some(vec!["a".to_string(), "b".to_string()])
    );
    assert_eq!(values(&requests[0].headers, "Host"), Some(vec!["h".to_string()]));
    assert_eq!(values(&requests[0].headers, "accept"), None);
}

#[test]
fn header_line_without_colon_is_dropped() {
    let (written, requests, error, _) =
        drive(b"GET / HTTP/1.1\r\nno colon here\r\nHost: h\r\n\r\n");
    assert_eq!(error, None);
    assert_eq!(requests.len(), 1);
    assert!(!requests[0].headers.contains("no colon here"));
    assert_eq!(values(&requests[0].headers, "Host"), Some(vec!["h".to_string()]));
    assert!(!written.is_empty());
}

#[test]
fn header_name_and_value_are_trimmed_and_split_at_the_first_colon() {
    let (_, requests, _, _) = drive(b"GET / HTTP/1.1\r\n  Host \t:  a:b : c  \r\n:\r\n\r\n");
    assert_eq!(values(&requests[0].headers, "Host"), Some(vec!["a:b : c".to_string()]));
    assert_eq!(values(&requests[0].headers, ""), Some(vec!["".to_string()]));
}

#[test]
fn without_content_length_nothing_is_read_as_body() {
    let (written, requests, error, _) =
        drive(b"GET /a HTTP/1.1\r\n\r\nGET /b HTTP/1.1\r\n\r\n");
    assert_eq!(error, None);
    assert_eq!(requests.len(), 2);
    assert_eq!(requests[0].body, None);
    assert_eq!(requests[0].path, "/a");
    assert_eq!(requests[1].path, "/b");
    let one = |p: &str| {
        format!("HTTP/1.1 200 OK\r\nContent-Type: text/plain\r\nContent-Length: 7\r\n\r\nGET {}\n", p)
    };
    assert_eq!(written, format!("{}{}", one("/a"), one("/b")).into_bytes());
}

#[test]
fn body_of_announced_length_is_followed_by_the_next_request() {
    let (written, requests, error, _) = drive(
        b"PUT /a HTTP/1.1\r\nContent-Length: 3\r\n\r\nabcGET /b HTTP/1.1\r\n\r\n",
    );
    assert_eq!(error, None);
    assert_eq!(requests.len(), 2);
    assert_eq!(requests[0].body, Some(b"abc".to_vec()));
    assert_eq!(requests[1].method, HttpMethod::GET);
    assert_eq!(requests[1].body, None);
    assert!(written.ends_with(b"GET /b\n"));
}

#[test]
fn content_length_zero_gives_an_empty_body() {
    let (_, requests, error, _) = drive(b"POST / HTTP/1.1\r\nContent-Length: 0\r\n\r\n");
    assert_eq!(error, None);
    assert_eq!(requests[0].body, Some(Vec::new()));
}

#[test]
fn content_length_is_matched_in_exact_case() {
    let (_, requests, error, rest) =
        drive(b"POST / HTTP/1.1\r\ncontent-length: 5\r\n\r\n");
    assert_eq!(error, None);
    assert_eq!(requests[0].body, None);
    assert_eq!(rest, 0);
}

#[test]
fn first_content_length_value_decides() {
    let (_, requests, error, _) =
        drive(b"POST / HTTP/1.1\r\nContent-Length: 2\r\nContent-Length: x\r\n\r\nhi");
    assert_eq!(error, None);
    assert_eq!(requests[0].body, Some(b"hi".to_vec()));
}

#[test]
fn invalid_content_length_aborts() {
    for value in ["abc", "", "-1", "1.5", "5 5", "99999999999999999999999999"] {
        let input = format!("POST / HTTP/1.1\r\nContent-Length: {}\r\n\r\n", value);
        let (written, requests, error, _) = drive(input.as_bytes());
        assert_eq!(error, Some(ParseError::InvalidContentLength), "{:?}", value);
        assert!(written.is_empty());
        assert!(requests.is_empty());
    }
}

#[test]
fn truncated_body_aborts() {
    let (written, requests, error, _) =
        drive(b"POST / HTTP/1.1\r\nContent-Length: 10\r\n\r\nshort");
    assert_eq!(error, Some(ParseError::TruncatedBody));
    assert!(written.is_empty());
    assert!(requests.is_empty());
}

#[test]
fn end_of_stream_within_headers_ends_normally() {
    let (written, requests, error, _) = drive(b"GET / HTTP/1.1\r\nHost: x\r\n");
    assert_eq!(error, None);
    assert!(written.is_empty());
    assert!(requests.is_empty());
}

#[test]
fn abort_leaves_later_requests_unread() {
    let (written, _, error, rest) = drive(b"BAD\r\nGET / HTTP/1.1\r\n\r\n");
    assert_eq!(error, Some(ParseError::InvalidRequestLine));
    assert!(written.is_empty());
    assert_eq!(rest, b"GET / HTTP/1.1\r\n\r\n".len());
}

#[test]
fn on_body_checks_the_length() {
    let begin = |line: &str| match on_request_line(line) {
        (State::ReadHeaders(request), _) => request,
        other => panic!("unexpected {:?}", other),
    };
    let (state, action) = on_body(begin("POST /p HTTP/1.1\r\n"), 3, b"abc".to_vec());
    assert!(matches!(state, State::WriteResponse));
    match action {
        Action::Respond(request, bytes) => {
            assert_eq!(request.body, Some(b"abc".to_vec()));
            assert!(bytes.ends_with(b"\r\n\r\nPOST /p\n"));
        }
        other => panic!("unexpected {:?}", other),
    }
    let (state, action) = on_body(begin("POST /p HTTP/1.1\r\n"), 3, b"ab".to_vec());
    assert!(matches!(state, State::Closed));
    assert!(matches!(action, Action::Abort(ParseError::TruncatedBody)));
}

#[test]
fn on_header_line_follows_the_framing() {
    let begin = || match on_request_line("POST /p HTTP/1.1\r\n") {
        (State::ReadHeaders(request), _) => request,
        other => panic!("unexpected {:?}", other),
    };
    let (state, action) = on_header_line(begin(), "Content-Length: +12\r\n");
    assert!(matches!(action, Action::ReadLine));
    let request = match state {
        State::ReadHeaders(request) => request,
        other => panic!("unexpected {:?}", other),
    };
    let (state, action) = on_header_line(request, "\r\n");
    assert!(matches!(state, State::ReadBody(_, 12)));
    assert!(matches!(action, Action::ReadBody(12)));
    let (state, action) = on_header_line(begin(), "");
    assert!(matches!(state, State::Closed));
    assert!(matches!(action, Action::Close));
}

#[test]
fn response_is_flushed_before_the_next_line_is_read() {
    let (state, action) = step(State::ReadRequestLine, Event::Line("GET / HTTP/1.1\r\n".into()));
    assert!(matches!(action, Action::ReadLine));
    let (state, action) = step(state, Event::Line("\r\n".into()));
    assert!(matches!(state, State::WriteResponse));
    assert!(matches!(action, Action::Respond(_, _)));
    let (state, action) = step(state, Event::Flushed);
    assert!(matches!(state, State::ReadRequestLine));
    assert!(matches!(action, Action::ReadLine));
}

#[test]
fn an_event_out_of_turn_closes_the_connection() {
    let (state, action) = step(State::WriteResponse, Event::Line("GET / HTTP/1.1\r\n".into()));
    assert!(matches!(state, State::Closed));
    assert!(matches!(action, Action::Close));
    let (state, action) = step(State::ReadRequestLine, Event::Flushed);
    assert!(matches!(state, State::Closed));
    assert!(matches!(action, Action::Close));
    let (state, action) = step(State::Closed, Event::Body(vec![1, 2]));
    assert!(matches!(state, State::Closed));
    assert!(matches!(action, Action::Close));
}

#[test]
fn serve_answers_get_hello() {
    let t = serve(b"GET /hello HTTP/1.1\r\nHost: x\r\n\r\n");
    assert_eq!(
        t.output,
        b"HTTP/1.1 200 OK\r\nContent-Type: text/plain\r\nContent-Length: 11\r\n\r\nGET /hello\n"
            .to_vec()
    );
    assert_eq!(t.outcome, Outcome::Closed);
    assert_eq!(t.requests.len(), 1);
    assert_eq!(t.requests[0].method, HttpMethod::GET);
    assert_eq!(t.requests[0].path, "/hello");
    assert_eq!(t.requests[0].body, None);
}

#[test]
fn serve_captures_the_announced_body() {
    let t = serve(b"POST /a HTTP/1.1\r\nContent-Length: 5\r\n\r\nhello");
    assert_eq!(t.outcome, Outcome::Closed);
    assert_eq!(t.requests.len(), 1);
    assert_eq!(t.requests[0].body, Some(b"hello".to_vec()));
    assert!(t.output.ends_with(b"Content-Length: 8\r\n\r\nPOST /a\n"));
}

#[test]
fn serve_on_nothing_writes_nothing() {
    let t = serve(b"");
    assert_eq!(t.outcome, Outcome::Closed);
    assert!(t.output.is_empty());
    assert!(t.requests.is_empty());
}

#[test]
fn serve_aborts_on_a_one_word_request_line() {
    let t = serve(b"BADLINE\r\n\r\n");
    assert_eq!(t.outcome, Outcome::Aborted(ParseError::InvalidRequestLine));
    assert!(t.output.is_empty());
    assert!(t.requests.is_empty());
}

#[test]
fn serve_keeps_the_responses_before_an_abort() {
    let t = serve(b"GET /a HTTP/1.1\r\n\r\nPOST /b HTTP/1.1\r\nContent-Length: x\r\n\r\n");
    assert_eq!(t.outcome, Outcome::Aborted(ParseError::InvalidContentLength));
    assert_eq!(t.requests.len(), 1);
    assert!(t.output.ends_with(b"\r\n\r\nGET /a\n"));
}

#[test]
fn serve_reports_a_short_body() {
    let t = serve(b"POST / HTTP/1.1\r\nContent-Length: 6\r\n\r\nhello");
    assert_eq!(t.outcome, Outcome::Aborted(ParseError::TruncatedBody));
    assert!(t.output.is_empty());
}

#[test]
fn serve_rejects_a_line_that_is_not_utf8() {
    let t = serve(b"GET /\xff HTTP/1.1\r\n\r\n");
    assert_eq!(t.outcome, Outcome::InvalidEncoding);
    assert!(t.output.is_empty());
    let t = serve(b"GET / HTTP/1.1\r\nX: \xc3\r\n\r\n");
    assert_eq!(t.outcome, Outcome::InvalidEncoding);
    let t = serve("GET /caf\u{e9} HTTP/1.1\r\n\r\n".as_bytes());
    assert_eq!(t.outcome, Outcome::Closed);
    assert_eq!(t.requests[0].path, "/caf\u{e9}");
}

#[test]
fn serve_takes_body_bytes_as_they_are() {
    let t = serve(b"POST / HTTP/1.1\r\nContent-Length: 4\r\n\r\n\xff\n\x00\r");
    assert_eq!(t.outcome, Outcome::Closed);
    assert_eq!(t.requests[0].body, Some(vec![0xff, b'\n', 0x00, b'\r']));
}

#[test]
fn find_line_end_stops_behind_the_line_feed() {
    assert_eq!(find_line_end(b"ab\ncd\n", 0), 3);
    assert_eq!(find_line_end(b"ab\ncd\n", 2), 3);
    assert_eq!(find_line_end(b"ab\ncd\n", 3), 6);
    assert_eq!(find_line_end(b"ab\ncd", 3), 5);
    assert_eq!(find_line_end(b"ab", 2), 2);
    assert_eq!(find_line_end(b"", 0), 0);
}

#[test]
fn serve_agrees_with_a_buffered_reader() {
    let inputs: [&[u8]; 10] = [
        b"",
        b"GET /hello HTTP/1.1\r\nHost: x\r\n\r\n",
        b"POST /a HTTP/1.1\r\nContent-Length: 5\r\n\r\nhello",
        b"GET /a HTTP/1.1\n\nGET /b HTTP/1.1\n\nFOO /c HTTP/1.1\n\n",
        b"PUT /a HTTP/1.1\r\nContent-Length: 3\r\n\r\nabcGET /b HTTP/1.1\r\n\r\n",
        b"BADLINE\r\n\r\n",
        b"GET / HTTP/1.1\r\nHost: x",
        b"POST / HTTP/1.1\r\nContent-Length: 10\r\n\r\nshort",
        b"POST / HTTP/1.1\r\nContent-Length: nine\r\n\r\n",
        b"GET / HTTP/1.1",
    ];
    for input in inputs {
        let (written, requests, error, _) = drive(input);
        let t = serve(input);
        assert_eq!(t.output, written);
        assert_eq!(t.requests.len(), requests.len());
        let outcome = match error {
            Some(e) => Outcome::Aborted(e),
            None => Outcome::Closed,
        };
        assert_eq!(t.outcome, outcome);
    }
}

#[test]
fn serve_writes_one_response_per_request_in_order() {
    let t = serve(
        b"GET /a HTTP/1.1\r\n\r\nPOST /b HTTP/1.1\r\nContent-Length: 2\r\n\r\nhiFOO /c x\r\n\r\nBAD\r\n",
    );
    assert_eq!(t.outcome, Outcome::Aborted(ParseError::InvalidRequestLine));
    assert_eq!(t.requests.len(), 3);
    let mut expected: Vec<u8> = Vec::new();
    for request in t.requests.iter() {
        expected.extend(mini_http::response::response(request.method, request.path.as_str()));
        assert_eq!(request.body.is_some(), request.headers.contains("Content-Length"));
    }
    assert_eq!(t.output, expected);
    assert_eq!(t.requests[0].path, "/a");
    assert_eq!(t.requests[1].path, "/b");
    assert_eq!(t.requests[2].method, HttpMethod::UNKNOWN);
}
