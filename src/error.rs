//! Errors reported by the library.
use vstd::prelude::*;

verus! {

/// An error of the request-handling core.
#[derive(Debug, Clone, PartialEq, Eq)]
pub enum Error {
    InvalidMethod(String),
    InvalidPath(String),
    RouteNotFound { method: String, path: String },
    InvalidHeader(String),
    BodyTooLarge { size: usize, limit: usize },
    Parse(String),
    Internal(String),
}

} // verus!
