//! The request method: a closed set of names, and a catch-all for any other
//! token.

use vstd::prelude::*;
use vstd::string::StringExecFns;
use crate::text::{is_word, str_eq};

verus! {

/// The method of a request. A token that is none of the nine known names is
/// `UNKNOWN`.
#[allow(clippy::upper_case_acronyms)]
#[derive(Debug, Clone, Copy, PartialEq, Eq, Structural)]
pub enum HttpMethod {
    GET,
    POST,
    PUT,
    DELETE,
    PATCH,
    HEAD,
    OPTIONS,
    CONNECT,
    TRACE,
    UNKNOWN,
}

/// Whether `token` is, letter for letter, one of the nine known method names.
pub open spec fn is_known_method(token: Seq<char>) -> bool {
    ||| token == "GET"@
    ||| token == "POST"@
    ||| token == "PUT"@
    ||| token == "DELETE"@
    ||| token == "PATCH"@
    ||| token == "HEAD"@
    ||| token == "OPTIONS"@
    ||| token == "CONNECT"@
    ||| token == "TRACE"@
}

impl HttpMethod {
    /// The canonical upper-case name of the method.
    pub open spec fn name(self) -> Seq<char> {
        match self {
            HttpMethod::GET => "GET"@,
            HttpMethod::POST => "POST"@,
            HttpMethod::PUT => "PUT"@,
            HttpMethod::DELETE => "DELETE"@,
            HttpMethod::PATCH => "PATCH"@,
            HttpMethod::HEAD => "HEAD"@,
            HttpMethod::OPTIONS => "OPTIONS"@,
            HttpMethod::CONNECT => "CONNECT"@,
            HttpMethod::TRACE => "TRACE"@,
            HttpMethod::UNKNOWN => "UNKNOWN"@,
        }
    }

    /// The method that a token names, by exact, case-sensitive match.
    pub open spec fn of_token(token: Seq<char>) -> HttpMethod {
        if token == "GET"@ {
            HttpMethod::GET
        } else if token == "POST"@ {
            HttpMethod::POST
        } else if token == "PUT"@ {
            HttpMethod::PUT
        } else if token == "DELETE"@ {
            HttpMethod::DELETE
        } else if token == "PATCH"@ {
            HttpMethod::PATCH
        } else if token == "HEAD"@ {
            HttpMethod::HEAD
        } else if token == "OPTIONS"@ {
            HttpMethod::OPTIONS
        } else if token == "CONNECT"@ {
            HttpMethod::CONNECT
        } else if token == "TRACE"@ {
            HttpMethod::TRACE
        } else {
            HttpMethod::UNKNOWN
        }
    }

    /// The canonical name as a string slice.
    pub fn as_str(&self) -> (s: &'static str)
        ensures
            s@ == self.name(),
    {
        match self {
            HttpMethod::GET => "GET",
            HttpMethod::POST => "POST",
            HttpMethod::PUT => "PUT",
            HttpMethod::DELETE => "DELETE",
            HttpMethod::PATCH => "PATCH",
            HttpMethod::HEAD => "HEAD",
            HttpMethod::OPTIONS => "OPTIONS",
            HttpMethod::CONNECT => "CONNECT",
            HttpMethod::TRACE => "TRACE",
            HttpMethod::UNKNOWN => "UNKNOWN",
        }
    }

    /// The canonical name as an owned string.
    pub fn to_string(&self) -> (s: String)
        ensures
            s@ == self.name(),
    {
        String::from_str(self.as_str())
    }
}

impl<'a> From<&'a str> for HttpMethod {
    /// Reads a method from a token. Never fails: a token that is no known
    /// name gives `UNKNOWN`.
    fn from(s: &'a str) -> (m: HttpMethod) {
        if str_eq(s, "GET") {
            HttpMethod::GET
        } else if str_eq(s, "POST") {
            HttpMethod::POST
        } else if str_eq(s, "PUT") {
            HttpMethod::PUT
        } else if str_eq(s, "DELETE") {
            HttpMethod::DELETE
        } else if str_eq(s, "PATCH") {
            HttpMethod::PATCH
        } else if str_eq(s, "HEAD") {
            HttpMethod::HEAD
        } else if str_eq(s, "OPTIONS") {
            HttpMethod::OPTIONS
        } else if str_eq(s, "CONNECT") {
            HttpMethod::CONNECT
        } else if str_eq(s, "TRACE") {
            HttpMethod::TRACE
        } else {
            HttpMethod::UNKNOWN
        }
    }
}

impl<'a> vstd::std_specs::convert::FromSpecImpl<&'a str> for HttpMethod {
    open spec fn obeys_from_spec() -> bool {
        true
    }

    open spec fn from_spec(s: &'a str) -> HttpMethod {
        HttpMethod::of_token(s@)
    }
}

/// A known method name reads as a method that is not `UNKNOWN` and whose
/// canonical name is that very token.
pub proof fn lemma_known_name_round_trips(token: Seq<char>)
    requires
        is_known_method(token),
    ensures
        HttpMethod::of_token(token).name() == token,
{
}

/// Any token outside the known names reads as `UNKNOWN`, whose canonical name
/// is the text `UNKNOWN`.
pub proof fn lemma_other_token_is_unknown(token: Seq<char>)
    requires
        !is_known_method(token),
    ensures
        HttpMethod::of_token(token) == HttpMethod::UNKNOWN,
        HttpMethod::of_token(token).name() == "UNKNOWN"@,
{
}

/// A known method name is a word.
pub proof fn lemma_known_name_is_word(token: Seq<char>)
    requires
        is_known_method(token),
    ensures
        is_word(token),
{
    reveal_strlit("GET");
    reveal_strlit("POST");
    reveal_strlit("PUT");
    reveal_strlit("DELETE");
    reveal_strlit("PATCH");
    reveal_strlit("HEAD");
    reveal_strlit("OPTIONS");
    reveal_strlit("CONNECT");
    reveal_strlit("TRACE");
    assert(token.len() <= 7);
    assert forall|k: int| 0 <= k < token.len() implies 'A' <= #[trigger] token[k] <= 'Z' by {}
}

/// Every method is read back from its own canonical name.
pub proof fn lemma_name_reads_back(m: HttpMethod)
    ensures
        HttpMethod::of_token(m.name()) == m,
        is_known_method(m.name()) <==> m != HttpMethod::UNKNOWN,
{
    reveal_strlit("GET");
    reveal_strlit("POST");
    reveal_strlit("PUT");
    reveal_strlit("DELETE");
    reveal_strlit("PATCH");
    reveal_strlit("HEAD");
    reveal_strlit("OPTIONS");
    reveal_strlit("CONNECT");
    reveal_strlit("TRACE");
    reveal_strlit("UNKNOWN");
    let n = m.name();
    assert(n.len() >= 3);
    assert("GET"@[0] == 'G' && "POST"@[1] == 'O' && "PUT"@[1] == 'U' && "DELETE"@[0] == 'D');
    assert("PATCH"@[1] == 'A' && "HEAD"@[0] == 'H' && "OPTIONS"@[0] == 'O');
    assert("CONNECT"@[0] == 'C' && "TRACE"@[0] == 'T' && "UNKNOWN"@[0] == 'U');
}

} // verus!
