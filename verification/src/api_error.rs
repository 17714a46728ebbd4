//! Errors of the HTTP API and the status code and error code each one is
//! answered with.

use vstd::prelude::*;
use crate::error::AuthError;

verus! {

/// Failure of the content store.
#[derive(Debug)]
pub enum StorageError {
    /// The addressed record does not exist.
    NotFound,
    /// Any other store failure, with its message.
    Other(String),
}

/// Why an API request failed.
#[derive(Debug)]
pub enum ApiError {
    /// Invalid domain data (validation), with its message.
    Core(String),
    Storage(StorageError),
    Auth(AuthError),
    /// Media store failure, with its message.
    Media(String),
    BadRequest(String),
    NotFound,
    Unauthorized,
    Forbidden(String),
    /// Too many requests; retry after this many milliseconds.
    RateLimited(u64),
    Unavailable(String),
    Internal(String),
}

/// Result of an API handler.
pub type ApiResult<T> = Result<T, ApiError>;

/// The HTTP status an error is answered with.
pub open spec fn spec_status(e: ApiError) -> u16 {
    match e {
        ApiError::NotFound | ApiError::Storage(StorageError::NotFound) => 404,
        ApiError::Unauthorized | ApiError::Auth(AuthError::InvalidCredentials) => 401,
        ApiError::Forbidden(_) | ApiError::Auth(AuthError::Forbidden) => 403,
        ApiError::RateLimited(_) => 429,
        ApiError::Unavailable(_) => 503,
        ApiError::BadRequest(_) | ApiError::Core(_) => 400,
        _ => 500,
    }
}

/// The machine-readable error code for an HTTP status of [`spec_status`].
pub open spec fn spec_error_code(status: u16) -> Seq<char> {
    if status == 404 {
        "not_found"@
    } else if status == 401 {
        "unauthorized"@
    } else if status == 403 {
        "forbidden"@
    } else if status == 429 {
        "rate_limited"@
    } else if status == 503 {
        "unavailable"@
    } else if status == 400 {
        "bad_request"@
    } else {
        "internal"@
    }
}

impl ApiError {
    /// The HTTP status and the error code of the JSON error body.
    pub fn status_and_code(&self) -> (res: (u16, &'static str))
        ensures
            res.0 == spec_status(*self),
            res.1@ == spec_error_code(res.0),
    {
        match self {
            ApiError::NotFound | ApiError::Storage(StorageError::NotFound) => (404, "not_found"),
            ApiError::Unauthorized | ApiError::Auth(AuthError::InvalidCredentials) => (
                401,
                "unauthorized",
            ),
            ApiError::Forbidden(_) | ApiError::Auth(AuthError::Forbidden) => (403, "forbidden"),
            ApiError::RateLimited(_) => (429, "rate_limited"),
            ApiError::Unavailable(_) => (503, "unavailable"),
            ApiError::BadRequest(_) | ApiError::Core(_) => (400, "bad_request"),
            _ => (500, "internal"),
        }
    }
}

} // verus!
