//! A request and the rules that read its parts: the request line, a header
//! line, and the framing of the body.

use vstd::prelude::*;
use vstd::string::StringExecFns;
use crate::headers::{values_in, with_value, Headers};
use crate::method::HttpMethod;
use crate::number::{parse_length, parsed_length};
use crate::text::{
    is_space, is_tight, is_word, lemma_find_from_at, lemma_three_words, lemma_trimmed_padded,
    split_at_first, split_once, split_whitespace, trim, trimmed, views, words,
};

verus! {

/// One parsed request.
#[derive(Debug)]
pub struct HttpRequest {
    pub method: HttpMethod,
    pub path: String,
    pub version: String,
    pub headers: Headers,
    pub body: Option<Vec<u8>>,
}

/// What a request holds, as mathematical values.
pub struct RequestView {
    pub method: HttpMethod,
    pub path: Seq<char>,
    pub version: Seq<char>,
    pub headers: Map<Seq<char>, Seq<Seq<char>>>,
    pub body: Option<Seq<u8>>,
}

/// The view of an optional body.
pub open spec fn body_view(body: Option<Vec<u8>>) -> Option<Seq<u8>> {
    match body {
        Some(bytes) => Some(bytes@),
        None => None,
    }
}

impl View for HttpRequest {
    type V = RequestView;

    open spec fn view(&self) -> RequestView {
        RequestView {
            method: self.method,
            path: self.path@,
            version: self.version@,
            headers: self.headers@,
            body: body_view(self.body),
        }
    }
}

impl HttpRequest {
    /// The headers are well formed.
    pub open spec fn wf(&self) -> bool {
        self.headers.wf()
    }
}

/// How the body of a request is framed.
#[derive(Debug, Clone, Copy, PartialEq, Eq, Structural)]
pub enum Framing {
    /// No `Content-Length` header: the request has no body.
    NoBody,
    /// The first `Content-Length` value is this length: a body of exactly
    /// so many bytes follows.
    Length(usize),
    /// The first `Content-Length` value is no valid length.
    Invalid,
}

/// The method, path and version of a request line: the three words of the
/// line. `None` where the line has any other number of words.
pub open spec fn request_line_of(raw: Seq<char>) -> Option<(HttpMethod, Seq<char>, Seq<char>)> {
    let w = words(trimmed(raw));
    if w.len() == 3 {
        Some((HttpMethod::of_token(w[0]), w[1], w[2]))
    } else {
        None
    }
}

/// Whether a line is blank: nothing but whitespace.
pub open spec fn is_blank(raw: Seq<char>) -> bool {
    trimmed(raw).len() == 0
}

/// The name and value of a header line: what stands before and after the
/// first colon of the trimmed line, each trimmed. `None` where the line has
/// no colon.
pub open spec fn header_of(raw: Seq<char>) -> Option<(Seq<char>, Seq<char>)> {
    match split_at_first(trimmed(raw), ':') {
        Some((name, value)) => Some((trimmed(name), trimmed(value))),
        None => None,
    }
}

/// The headers `m` after one more header line: a line with a colon adds its
/// value under its name, any other line changes nothing.
pub open spec fn with_line(m: Map<Seq<char>, Seq<Seq<char>>>, raw: Seq<char>) -> Map<
    Seq<char>,
    Seq<Seq<char>>,
> {
    match header_of(raw) {
        Some((name, value)) => with_value(m, name, value),
        None => m,
    }
}

/// The framing that the headers `m` ask for. Only the name `Content-Length`
/// in exactly this spelling counts, and only its first value.
pub open spec fn framing_of(m: Map<Seq<char>, Seq<Seq<char>>>) -> Framing {
    if m.contains_key("Content-Length"@) {
        match parsed_length(m["Content-Length"@][0]) {
            Some(n) => Framing::Length(n),
            None => Framing::Invalid,
        }
    } else {
        Framing::NoBody
    }
}

/// The headers that a sequence of header lines gives, read first to last.
pub open spec fn collected(lines: Seq<Seq<char>>) -> Map<Seq<char>, Seq<Seq<char>>>
    decreases lines.len(),
{
    if lines.len() == 0 {
        Map::empty()
    } else {
        with_line(collected(lines.drop_last()), lines.last())
    }
}

/// The values of the lines of `lines` whose name is `name`, in the order of
/// the lines.
pub open spec fn values_of(lines: Seq<Seq<char>>, name: Seq<char>) -> Seq<Seq<char>>
    decreases lines.len(),
{
    if lines.len() == 0 {
        Seq::empty()
    } else {
        let earlier = values_of(lines.drop_last(), name);
        match header_of(lines.last()) {
            Some((n, value)) => if n == name {
                earlier.push(value)
            } else {
                earlier
            },
            None => earlier,
        }
    }
}

/// The entry of a name holds exactly the values that the lines gave under
/// that name, in the order in which the lines came, and a name has an entry
/// if and only if some line gave it a value. So a name that is repeated
/// keeps all its values in arrival order, and a line without a colon adds
/// nothing.
pub proof fn lemma_collected_values(lines: Seq<Seq<char>>, name: Seq<char>)
    ensures
        values_in(collected(lines), name) == values_of(lines, name),
        collected(lines).contains_key(name) <==> values_of(lines, name).len() > 0,
    decreases lines.len(),
{
    if lines.len() > 0 {
        lemma_collected_values(lines.drop_last(), name);
    }
}

/// Two lines that give the same name leave both values under that name, the
/// first before the second.
pub proof fn lemma_repeated_name(
    first: Seq<char>,
    second: Seq<char>,
    name: Seq<char>,
    v1: Seq<char>,
    v2: Seq<char>,
)
    requires
        header_of(first) == Some((name, v1)),
        header_of(second) == Some((name, v2)),
    ensures
        collected(seq![first, second]).contains_key(name),
        collected(seq![first, second])[name] == seq![v1, v2],
{
    let lines = seq![first, second];
    assert(lines.drop_last() =~= seq![first]);
    assert(seq![first].drop_last() =~= Seq::<Seq<char>>::empty());
    lemma_collected_values(lines, name);
    assert(values_of(Seq::<Seq<char>>::empty(), name) =~= Seq::<Seq<char>>::empty());
    assert(values_of(seq![first], name) =~= seq![v1]);
    assert(values_of(lines, name) =~= seq![v1, v2]);
}

/// A line without a colon leaves the headers as they were.
pub proof fn lemma_line_without_colon(m: Map<Seq<char>, Seq<Seq<char>>>, raw: Seq<char>)
    requires
        split_at_first(trimmed(raw), ':') is None,
    ensures
        with_line(m, raw) == m,
{
}

/// The line that asks for `path` by `method` in `version`: the three words
/// set apart by single spaces, ended by a carriage return and a line feed.
pub open spec fn request_line(method: Seq<char>, path: Seq<char>, version: Seq<char>) -> Seq<char> {
    method + seq![' '] + path + seq![' '] + version + seq!['\r', '\n']
}

/// A request line made of three words reads as the method that its first
/// word names, and as its second and third word, letter for letter.
pub proof fn lemma_request_line_reads_back(method: Seq<char>, path: Seq<char>, version: Seq<char>)
    requires
        is_word(method),
        is_word(path),
        is_word(version),
    ensures
        request_line_of(request_line(method, path, version)) == Some(
            (HttpMethod::of_token(method), path, version),
        ),
{
    let t = method + seq![' '] + path + seq![' '] + version;
    let line = request_line(method, path, version);
    let none = Seq::<char>::empty();
    assert(is_space('\n') && is_space('\r'));
    assert(is_tight(t)) by {
        assert(t.first() == method.first());
        assert(t.last() == version.last());
    }
    assert(line =~= none + t + seq!['\r', '\n']);
    lemma_trimmed_padded(none, t, seq!['\r', '\n']);
    lemma_three_words(method, path, version);
}

/// The line that gives `value` under `name`: the name, a colon, a space,
/// the value, a carriage return and a line feed.
pub open spec fn header_line(name: Seq<char>, value: Seq<char>) -> Seq<char> {
    name + seq![':', ' '] + value + seq!['\r', '\n']
}

/// A header line made of a name without a colon and of a value, both
/// without whitespace at their ends, reads as that name and that value,
/// letter for letter, and is not blank.
pub proof fn lemma_header_line_reads_back(name: Seq<char>, value: Seq<char>)
    requires
        is_tight(name),
        is_tight(value),
        forall|k: int| 0 <= k < name.len() ==> #[trigger] name[k] != ':',
    ensures
        header_of(header_line(name, value)) == Some((name, value)),
        !is_blank(header_line(name, value)),
{
    let t = name + seq![':', ' '] + value;
    let line = header_line(name, value);
    let n = name.len() as int;
    let none = Seq::<char>::empty();
    assert(is_space('\n') && is_space('\r') && is_space(' '));
    assert(is_tight(t)) by {
        assert(t.first() == name.first());
        assert(t.last() == value.last());
    }
    assert(line =~= none + t + seq!['\r', '\n']);
    lemma_trimmed_padded(none, t, seq!['\r', '\n']);
    assert forall|k: int| 0 <= k < n implies #[trigger] t[k] != ':' by {
        assert(t[k] == name[k]);
    }
    assert(t[n] == ':');
    lemma_find_from_at(t, ':', 0, n);
    assert(t.subrange(0, n) =~= none + name + none);
    assert(t.subrange(n + 1, t.len() as int) =~= seq![' '] + value + none);
    lemma_trimmed_padded(none, name, none);
    lemma_trimmed_padded(seq![' '], value, none);
}

/// Two header lines that give values under one name leave both values under
/// that name, the first before the second.
pub proof fn lemma_repeated_header_line(name: Seq<char>, v1: Seq<char>, v2: Seq<char>)
    requires
        is_tight(name),
        is_tight(v1),
        is_tight(v2),
        forall|k: int| 0 <= k < name.len() ==> #[trigger] name[k] != ':',
    ensures
        collected(seq![header_line(name, v1), header_line(name, v2)]).contains_key(name),
        collected(seq![header_line(name, v1), header_line(name, v2)])[name] == seq![v1, v2],
{
    lemma_header_line_reads_back(name, v1);
    lemma_header_line_reads_back(name, v2);
    lemma_repeated_name(header_line(name, v1), header_line(name, v2), name, v1, v2);
}

/// Reads a request line.
pub fn parse_request_line(raw: &str) -> (r: Option<(HttpMethod, String, String)>)
    ensures
        match r {
            Some((method, path, version)) => request_line_of(raw@) == Some(
                (method, path@, version@),
            ),
            None => request_line_of(raw@) is None,
        },
{
    let mut tokens = split_whitespace(trim(raw));
    if tokens.len() != 3 {
        return None;
    }
    let ghost w = views(tokens@);
    let version = tokens.pop().unwrap();
    let path = tokens.pop().unwrap();
    let method = HttpMethod::from(tokens[0].as_str());
    assert(version@ == w[2] && path@ == w[1] && tokens[0]@ == w[0]);
    Some((method, path, version))
}

/// Reads the name and the value of a header line.
pub fn parse_header_line(raw: &str) -> (r: Option<(String, String)>)
    ensures
        match r {
            Some((name, value)) => header_of(raw@) == Some((name@, value@)),
            None => header_of(raw@) is None,
        },
{
    match split_once(trim(raw), ':') {
        Some((name, value)) => Some((String::from_str(trim(name)), String::from_str(trim(value)))),
        None => None,
    }
}

/// Decides how the body is framed.
pub fn framing(headers: &Headers) -> (f: Framing)
    requires
        headers.wf(),
    ensures
        f == framing_of(headers@),
{
    match headers.get("Content-Length") {
        Some(values) => {
            assert(views(values@)[0] == values[0]@);
            match parse_length(values[0].as_str()) {
                Some(n) => Framing::Length(n),
                None => Framing::Invalid,
            }
        },
        None => Framing::NoBody,
    }
}

} // verus!
