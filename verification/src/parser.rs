//! Integration with the wire-level HTTP/1.1 grammar parser.
//!
//! Parsing is delegated to the `httparse` crate. Its outcome is a pure
//! function of the input bytes; the library names that function
//! [`http_parse`] and states every contract over the name.

use vstd::prelude::*;

use crate::request::{HeaderField, Request, RequestModel};

verus! {

/// The outcome of parsing a buffered prefix.
pub ghost enum ParseModel {
    /// A full request, and how many input bytes it covered (the offset
    /// of the body).
    Complete(RequestModel, nat),
    /// Not enough data yet.
    Partial,
    /// Malformed input (or more header fields than the storage admits).
    Error,
}

pub enum ParseStatus {
    Complete(Request, usize),
    Partial,
    Error,
}

impl View for ParseStatus {
    type V = ParseModel;

    open spec fn view(&self) -> ParseModel {
        match self {
            ParseStatus::Complete(req, n) => ParseModel::Complete(req@, *n as nat),
            ParseStatus::Partial => ParseModel::Partial,
            ParseStatus::Error => ParseModel::Error,
        }
    }
}

/// What parsing a byte sequence yields: the outcome of
/// `httparse::Request::parse` under its default configuration with 64
/// header slots, which depends on the input bytes alone.
pub uninterp spec fn http_parse(input: Seq<u8>) -> ParseModel;

/// Relies on `httparse::Request::parse` (default configuration, 64 header
/// slots): the outcome is a function of the input bytes alone; a complete
/// parse fills in method, path and version, and returns the body offset,
/// an index into the input.
#[verifier::external_body]
pub fn parse_request(buffer: &[u8]) -> (r: ParseStatus)
    ensures
        r@ == http_parse(buffer@),
        r@ matches ParseModel::Complete(req, n) ==> n <= buffer@.len(),
{
    let mut storage = [httparse::EMPTY_HEADER; 64];
    let mut req = httparse::Request::new(&mut storage);
    match req.parse(buffer) {
        Ok(httparse::Status::Complete(n)) => ParseStatus::Complete(Request {
            method: req.method.unwrap_or("").to_string(),
            path: req.path.unwrap_or("").to_string(),
            version: req.version.unwrap_or(1),
            headers: req.headers.iter().map(
                |h| HeaderField { name: h.name.to_string(), value: h.value.to_vec() },
            ).collect(),
        }, n),
        Ok(httparse::Status::Partial) => ParseStatus::Partial,
        Err(_) => ParseStatus::Error,
    }
}

} // verus!
