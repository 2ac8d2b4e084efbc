use mini_http::headers::Headers;
use mini_http::method::HttpMethod;
use mini_http::number::{parse_length, push_decimal};
use mini_http::request::{framing, parse_header_line, parse_request_line, Framing};
use mini_http::response::{response, response_body};
use mini_http::text::{chars_of, is_whitespace, split_once, split_whitespace, str_eq, trim};

const SAMPLES: [&str; 12] = [
    "",
    " ",
    "a",
    "  a  ",
    "\r\n",
    "GET /hello HTTP/1.1\r\n",
    "\t x \u{a0} y\u{3000}\u{2003}",
    "\u{85}lead and trail\u{2028}",
    "\u{200b}zero width is no space\u{200b}",
    "Host: example.org:80\r\n",
    "a\u{b}b\u{c}c",
    "  \u{1680}\u{205f}  ",
];

#[test]
fn method_from_known_names() {
    assert_eq!(HttpMethod::from("GET"), HttpMethod::GET);
    assert_eq!(HttpMethod::from("POST"), HttpMethod::POST);
    assert_eq!(HttpMethod::from("PUT"), HttpMethod::PUT);
    assert_eq!(HttpMethod::from("DELETE"), HttpMethod::DELETE);
    assert_eq!(HttpMethod::from("PATCH"), HttpMethod::PATCH);
    assert_eq!(HttpMethod::from("HEAD"), HttpMethod::HEAD);
    assert_eq!(HttpMethod::from("OPTIONS"), HttpMethod::OPTIONS);
    assert_eq!(HttpMethod::from("CONNECT"), HttpMethod::CONNECT);
    assert_eq!(HttpMethod::from("TRACE"), HttpMethod::TRACE);
}

#[test]
fn method_from_other_tokens_is_unknown() {
    for token in ["FOO", "get", "Get", "", "GET ", "GETS", "UNKNOWN", "G"] {
        assert_eq!(HttpMethod::from(token), HttpMethod::UNKNOWN, "{:?}", token);
    }
}

#[test]
fn method_name_round_trips() {
    let all = [
        (HttpMethod::GET, "GET"),
        (HttpMethod::POST, "POST"),
        (HttpMethod::PUT, "PUT"),
        (HttpMethod::DELETE, "DELETE"),
        (HttpMethod::PATCH, "PATCH"),
        (HttpMethod::HEAD, "HEAD"),
        (HttpMethod::OPTIONS, "OPTIONS"),
        (HttpMethod::CONNECT, "CONNECT"),
        (HttpMethod::TRACE, "TRACE"),
        (HttpMethod::UNKNOWN, "UNKNOWN"),
    ];
    for (method, name) in all {
        assert_eq!(method.to_string(), name);
        assert_eq!(method.as_str(), name);
        assert_eq!(HttpMethod::from(method.to_string().as_str()), method);
    }
}

#[test]
fn chars_of_gives_every_character() {
    for s in SAMPLES {
        assert_eq!(chars_of(s), s.chars().collect::<Vec<char>>());
    }
}

#[test]
fn str_eq_compares_letter_for_letter() {
    assert!(str_eq("", ""));
    assert!(str_eq("Content-Length", "Content-Length"));
    assert!(!str_eq("Content-Length", "content-length"));
    assert!(!str_eq("abc", "ab"));
    assert!(!str_eq("ab", "abc"));
    assert!(!str_eq("abc", "abd"));
}

#[test]
fn whitespace_is_unicode_whitespace() {
    let mut code: u32 = 0;
    while code < 0x11000 {
        if let Some(c) = char::from_u32(code) {
            assert_eq!(is_whitespace(c), c.is_whitespace(), "{:x}", code);
        }
        code += 1;
    }
}

#[test]
fn trim_strips_both_ends() {
    assert_eq!(trim("  a b \r\n"), "a b");
    assert_eq!(trim("\u{a0}x\u{3000}"), "x");
    assert_eq!(trim(" \t\r\n"), "");
    assert_eq!(trim(""), "");
    for s in SAMPLES {
        assert_eq!(trim(s), s.trim());
    }
}

#[test]
fn split_whitespace_gives_the_words() {
    assert_eq!(split_whitespace("GET  /a\tHTTP/1.1"), vec!["GET", "/a", "HTTP/1.1"]);
    assert_eq!(split_whitespace("   "), Vec::<String>::new());
    assert_eq!(split_whitespace(""), Vec::<String>::new());
    for s in SAMPLES {
        let expected: Vec<String> = s.split_whitespace().map(|w| w.to_string()).collect();
        assert_eq!(split_whitespace(s), expected);
    }
}

#[test]
fn split_once_cuts_at_the_first_occurrence() {
    assert_eq!(split_once("a:b:c", ':'), Some(("a", "b:c")));
    assert_eq!(split_once(":", ':'), Some(("", "")));
    assert_eq!(split_once("abc:", ':'), Some(("abc", "")));
    assert_eq!(split_once("abc", ':'), None);
    assert_eq!(split_once("", ':'), None);
    for s in SAMPLES {
        assert_eq!(split_once(s, ':'), s.split_once(':'));
    }
}

#[test]
fn parse_length_reads_decimal_digits() {
    assert_eq!(parse_length("0"), Some(0));
    assert_eq!(parse_length("5"), Some(5));
    assert_eq!(parse_length("007"), Some(7));
    assert_eq!(parse_length("+42"), Some(42));
    assert_eq!(parse_length("+0"), Some(0));
    assert_eq!("+0".parse::<usize>().ok(), Some(0));
    assert_eq!(parse_length("1234567890"), Some(1234567890));
    assert_eq!(parse_length(usize::MAX.to_string().as_str()), Some(usize::MAX));
}

#[test]
fn parse_length_rejects_everything_else() {
    let max = usize::MAX.to_string();
    let above = format!("{}0", max);
    let next = {
        let mut digits = max.clone().into_bytes();
        let last = digits.len() - 1;
        digits[last] += 1;
        String::from_utf8(digits).unwrap()
    };
    for s in ["", "+", "-", "-0", "-1", "++1", "+-1", "1+", " 1", "1 ", "0x10", "1e3", "\u{661}", "12a"] {
        assert_eq!(parse_length(s), None, "{:?}", s);
        assert!(s.parse::<usize>().is_err());
    }
    assert_eq!(parse_length(above.as_str()), None);
    assert_eq!(parse_length(next.as_str()), None);
    assert!(next.parse::<usize>().is_err());
}

#[test]
fn push_decimal_writes_base_ten() {
    for n in [0usize, 1, 9, 10, 11, 99, 100, 101, 12345, usize::MAX] {
        let mut out = String::from("n=");
        push_decimal(&mut out, n);
        assert_eq!(out, format!("n={}", n));
        assert_eq!(parse_length(&out[2..]), Some(n));
    }
}

#[test]
fn response_body_echoes_method_and_path() {
    assert_eq!(response_body(HttpMethod::GET, "/hello"), "GET /hello\n");
    assert_eq!(response_body(HttpMethod::UNKNOWN, ""), "UNKNOWN \n");
}

#[test]
fn response_counts_the_body_in_bytes() {
    assert_eq!(
        response(HttpMethod::GET, "/hello"),
        b"HTTP/1.1 200 OK\r\nContent-Type: text/plain\r\nContent-Length: 11\r\n\r\nGET /hello\n"
            .to_vec()
    );
    assert_eq!(
        response(HttpMethod::DELETE, "/caf\u{e9}"),
        "HTTP/1.1 200 OK\r\nContent-Type: text/plain\r\nContent-Length: 14\r\n\r\nDELETE /caf\u{e9}\n"
            .as_bytes()
            .to_vec()
    );
}

#[test]
fn parse_request_line_takes_three_words() {
    assert_eq!(
        parse_request_line("GET /hello HTTP/1.1\r\n"),
        Some((HttpMethod::GET, "/hello".to_string(), "HTTP/1.1".to_string()))
    );
    assert_eq!(
        parse_request_line("FOO nopath whatever"),
        Some((HttpMethod::UNKNOWN, "nopath".to_string(), "whatever".to_string()))
    );
    assert_eq!(parse_request_line("BADLINE\r\n"), None);
    assert_eq!(parse_request_line("a b c d"), None);
    assert_eq!(parse_request_line(""), None);
}

#[test]
fn parse_header_line_trims_name_and_value() {
    assert_eq!(
        parse_header_line("Host: example.org:80\r\n"),
        Some(("Host".to_string(), "example.org:80".to_string()))
    );
    assert_eq!(parse_header_line(" A : \r\n"), Some(("A".to_string(), "".to_string())));
    assert_eq!(parse_header_line("no colon\r\n"), None);
}

#[test]
fn headers_accumulate_in_arrival_order() {
    let mut headers = Headers::new();
    assert!(!headers.contains("A"));
    assert_eq!(headers.get("A"), None);
    headers.append("A".to_string(), "1".to_string());
    headers.append("B".to_string(), "x".to_string());
    headers.append("A".to_string(), "2".to_string());
    headers.append("A".to_string(), "1".to_string());
    assert_eq!(
        headers.get("A"),
        Some(&vec!["1".to_string(), "2".to_string(), "1".to_string()])
    );
    assert_eq!(headers.get("B"), Some(&vec!["x".to_string()]));
    assert_eq!(headers.get("a"), None);
    assert!(headers.contains("B"));
}

#[test]
fn framing_reads_the_first_content_length() {
    let mut headers = Headers::new();
    assert_eq!(framing(&headers), Framing::NoBody);
    headers.append("content-length".to_string(), "3".to_string());
    assert_eq!(framing(&headers), Framing::NoBody);
    headers.append("Content-Length".to_string(), "17".to_string());
    headers.append("Content-Length".to_string(), "bad".to_string());
    assert_eq!(framing(&headers), Framing::Length(17));
    let mut bad = Headers::new();
    bad.append("Content-Length".to_string(), "seventeen".to_string());
    assert_eq!(framing(&bad), Framing::Invalid);
}
