//! The fixed response that answers every request: a status line, two
//! headers, a blank line, and a body that echoes the method and the path.

use vstd::prelude::*;
use vstd::string::StrSliceExecFns;
use vstd::string::StringExecFns;
use vstd::utf8::encode_utf8;
use crate::method::HttpMethod;
use crate::number::{decimal, push_decimal};

verus! {

/// The body of the response: the method's name, a space, the path as it was
/// received, and a line feed.
pub open spec fn body_text(method: HttpMethod, path: Seq<char>) -> Seq<char> {
    method.name() + " "@ + path + "\n"@
}

/// The whole response as text. The `Content-Length` header carries the
/// number of bytes that the body takes in UTF-8.
pub open spec fn response_text(method: HttpMethod, path: Seq<char>) -> Seq<char> {
    "HTTP/1.1 200 OK\r\n"@ + "Content-Type: text/plain\r\n"@ + "Content-Length: "@ + decimal(
        encode_utf8(body_text(method, path)).len(),
    ) + "\r\n"@ + "\r\n"@ + body_text(method, path)
}

/// The bytes of the response.
pub open spec fn response_bytes(method: HttpMethod, path: Seq<char>) -> Seq<u8> {
    encode_utf8(response_text(method, path))
}

/// Builds the body of the response to a request for `path` by `method`.
pub fn response_body(method: HttpMethod, path: &str) -> (body: String)
    ensures
        body@ == body_text(method, path@),
{
    let mut body = method.to_string();
    body.append(" ");
    body.append(path);
    body.append("\n");
    body
}

/// Builds the bytes of the response to a request for `path` by `method`.
pub fn response(method: HttpMethod, path: &str) -> (out: Vec<u8>)
    ensures
        out@ == response_bytes(method, path@),
{
    let body = response_body(method, path);
    let mut text = String::from_str("HTTP/1.1 200 OK\r\n");
    text.append("Content-Type: text/plain\r\n");
    text.append("Content-Length: ");
    let length: usize = body.as_str().as_bytes().len();
    push_decimal(&mut text, length);
    text.append("\r\n");
    text.append("\r\n");
    text.append(body.as_str());
    assert(text@ =~= response_text(method, path@));
    text.as_str().as_bytes_vec()
}

} // verus!
