//! The library's error type; each variant carries what the caller shows.
use vstd::prelude::*;

verus! {

/// Errors returned by the rules of the library.
#[derive(Debug)]
pub enum AppError {
    /// A referenced song or queue item does not exist.
    NotFound(String),
    /// The request is malformed or not allowed in the current state.
    BadRequest(String),
    /// The caller is submitting too often.
    RateLimited(String),
    /// The caller lacks the privileges the operation needs.
    Forbidden(String),
    /// No device identity accompanies the request.
    Unauthorized,
    /// The device is banned.
    Banned,
    /// An internal failure, with its description.
    Internal(String),
}

impl AppError {
    /// A `NotFound` error with exactly this message.
    pub open spec fn is_not_found(self, msg: Seq<char>) -> bool {
        match self {
            AppError::NotFound(m) => m@ == msg,
            _ => false,
        }
    }

    /// A `BadRequest` error with exactly this message.
    pub open spec fn is_bad_request(self, msg: Seq<char>) -> bool {
        match self {
            AppError::BadRequest(m) => m@ == msg,
            _ => false,
        }
    }

    /// A `RateLimited` error with exactly this message.
    pub open spec fn is_rate_limited(self, msg: Seq<char>) -> bool {
        match self {
            AppError::RateLimited(m) => m@ == msg,
            _ => false,
        }
    }

    /// A `Forbidden` error with exactly this message.
    pub open spec fn is_forbidden(self, msg: Seq<char>) -> bool {
        match self {
            AppError::Forbidden(m) => m@ == msg,
            _ => false,
        }
    }
}

/// The result failed with exactly this error.
pub open spec fn fails_with<T>(r: Result<T, AppError>, p: spec_fn(AppError) -> bool) -> bool {
    match r {
        Err(e) => p(e),
        Ok(_) => false,
    }
}

} // verus!
