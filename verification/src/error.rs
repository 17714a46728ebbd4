//! Errors of the authentication layer.

use vstd::prelude::*;

verus! {

/// Why an authentication or authorization step failed.
#[derive(Debug)]
pub enum AuthError {
    /// Unknown user, missing password hash or wrong password.
    InvalidCredentials,
    /// The account exists but is not active.
    AccountDisabled,
    /// The session exists but its expiry has passed.
    SessionExpired,
    /// No session with that token.
    SessionNotFound,
    /// The caller lacks the permission asked for.
    Forbidden,
    /// Password hashing failed, or a claim did not parse.
    Hash(String),
    /// A JSON Web Token failed to encode or verify.
    Jwt(String),
    /// The backing store failed.
    Storage(String),
}

/// Result of an authentication step.
pub type AuthResult<T> = Result<T, AuthError>;

} // verus!
