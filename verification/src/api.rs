//! The operations the interface layer exposes, as verified functions over
//! the application state.  The HTTP surface and JSON encoding live in the
//! application shell; it hands these functions plain values (and, for
//! grading, the triple the rating engine computed) and renders what they
//! return.

pub mod tactics;
pub mod user;

use vstd::prelude::*;

verus! {

/// A plain success reply.
pub struct ApiResponse {
    pub description: String,
}

impl ApiResponse {
    pub fn ok() -> (r: ApiResponse)
        ensures
            r.description@ == "OK"@,
    {
        ApiResponse { description: "OK".to_owned() }
    }
}

/// A failure reply of the interface layer.
#[derive(Debug, Clone)]
pub enum ApiError {
    NotFound(String),
    InternalError(String),
    InvalidParameter(String),
}

} // verus!
