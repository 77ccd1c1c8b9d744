//! The guest side of the fetch bridge: checking a native call's arguments and
//! turning what the guest's fetch call describes into the request that crosses
//! to the host.

use crate::byte_list::{byte_list, parse_byte_list};
use crate::http::Request;
use vstd::prelude::*;

verus! {

/// A native binding was called with the wrong number of arguments.
#[derive(Debug, Clone, Copy, PartialEq, Eq, Structural)]
pub struct ArityError {
    pub expected: usize,
    pub received: usize,
}

/// Accepts exactly `expected` arguments.
pub fn check_arity(expected: usize, received: usize) -> (r: Result<(), ArityError>)
    ensures
        expected == received <==> r is Ok,
        expected != received ==> r == Err::<(), ArityError>(ArityError { expected, received }),
{
    if expected == received {
        Ok(())
    } else {
        Err(ArityError { expected, received })
    }
}

/// Why a fetch call could not become a request.
#[derive(Debug, Clone, Copy, PartialEq, Eq, Structural)]
pub enum FetchError {
    /// The call did not have exactly one argument.
    Arity(ArityError),
    /// The body is not a list of decimal bytes.
    InvalidBody,
}

/// The request that a fetch call describes: its method, URL and header pairs as
/// given, and the bytes of its byte-list body.
pub fn fetch_request(method: String, url: String, headers: Vec<(String, String)>, body: &str) -> (r:
    Result<Request, FetchError>)
    ensures
        match byte_list(body@) {
            Some(bytes) => r is Ok && r->Ok_0.method == method && r->Ok_0.url == url
                && r->Ok_0.headers == Some(headers) && r->Ok_0.body is Some
                && r->Ok_0.body->Some_0@ == bytes,
            None => r == Err::<Request, FetchError>(FetchError::InvalidBody),
        },
{
    match parse_byte_list(body) {
        Some(bytes) => Ok(Request { method, url, headers: Some(headers), body: Some(bytes) }),
        None => Err(FetchError::InvalidBody),
    }
}

} // verus!
