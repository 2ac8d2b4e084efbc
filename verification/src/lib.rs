//! A minimal HTTP/1.x connection handler: request-line and header parsing,
//! body framing by `Content-Length`, and the fixed echo response.
//!
//! The handler is a state machine that owns no stream. `connection::step`
//! takes the state and what happened on the stream and gives the next state
//! and what to do on the stream; `stream::serve` runs it over bytes already
//! received. Every function is verified against a specification over the
//! characters and bytes involved.
//!
//! - `text`: whitespace, trimming, words, splitting at a separator
//! - `number`: decimal lengths, read and written
//! - `method`: the request method
//! - `headers`: header names with their values in arrival order
//! - `request`: the request, its request line, header lines and framing
//! - `response`: the fixed response
//! - `connection`: the state machine
//! - `runs`: what holds of sequences of steps
//! - `stream`: a whole connection over recorded input

pub mod connection;
pub mod headers;
pub mod method;
pub mod number;
pub mod request;
pub mod response;
pub mod runs;
pub mod stream;
pub mod text;
