//! The services that orchestrate the clock, the scheduler, the rating guard
//! and the store.

pub mod tactics_service;
pub mod user_service;

use vstd::prelude::*;

verus! {

/// A failure of a service operation.
#[derive(Debug, Clone)]
pub enum ServiceError {
    InternalError(String),
    InvalidParameter(String),
}

} // verus!
