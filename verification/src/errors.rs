//! Error taxonomy of the engine.
//!
//! Failures that reach a caller over the wire are collapsed to a generic
//! message so that the cause cannot be distinguished from outside, but each
//! cause stays distinct internally for diagnostics.

use vstd::prelude::*;

verus! {

/// Why resolving an opaque token failed. All variants are reported
/// identically to callers; they differ only for internal diagnostics.
#[derive(Clone, Copy, Debug, PartialEq, Eq, Structural)]
pub enum ResolveError {
    /// The token is not `24 hex id bytes || 64 secret bytes`.
    Malformed,
    /// No row carries the token's id half.
    NotFound,
    /// The row exists but its expiry timestamp has passed.
    Expired,
    /// The deployment binds sessions to the issuing address and it differs.
    IpMismatch,
    /// The secret half does not verify against the stored hash.
    SecretMismatch,
    /// The grant does not carry the demanded scope.
    ScopeMissing,
}

/// Login failures, each with its own wire status.
#[derive(Clone, Copy, Debug, PartialEq, Eq, Structural)]
pub enum LoginError {
    /// Empty username, or username/password over the length cap.
    BadLength,
    /// Unknown username or wrong password.
    BadCredentials,
    /// The account is locked; holds the unlock timestamp.
    Locked { until: i64 },
    /// A freshly drawn row identifier collided with an existing row.
    Internal,
}

/// Signup failures, each with its own wire status.
#[derive(Clone, Copy, Debug, PartialEq, Eq, Structural)]
pub enum SignupError {
    /// Empty username, or username/password over the length cap.
    BadLength,
    /// The email does not match the accepted grammar.
    BadEmail,
    /// Another user already holds the username.
    UsernameTaken,
    /// Another user already holds the email.
    EmailTaken,
    /// A freshly drawn row identifier collided with an existing row.
    Internal,
}

/// Authenticated password-change failures.
#[derive(Clone, Copy, Debug, PartialEq, Eq, Structural)]
pub enum ChangePasswordError {
    /// A password is over the length cap.
    BadLength,
    /// The session token did not resolve or is not fully verified.
    BadToken,
    /// The password was changed within the cooldown window.
    RateLimited,
    /// The old password does not verify.
    WrongPassword,
}

/// Failures of setting a new password from a reset token.
#[derive(Clone, Copy, Debug, PartialEq, Eq, Structural)]
pub enum ResetPasswordError {
    /// The password is over the length cap.
    BadLength,
    /// The reset token did not resolve.
    BadToken,
    /// The password was changed within the cooldown window.
    RateLimited,
}

/// Outcome of the session verification state machine: either the session is
/// fully verified, or one procedure remains and the caller is told which.
#[derive(Clone, Copy, Debug, PartialEq, Eq, Structural)]
pub enum VerifyState {
    /// `session.valid` is true: privileged operations are allowed.
    Verified,
    /// The account's email address is not confirmed yet.
    NeedsEmail,
    /// Email is confirmed, a second factor is enrolled, none presented yet.
    NeedsMfa,
    /// Email is confirmed, no second factor; a plain confirmation remains.
    NeedsConfirm,
}

/// Generic API failure carried to unverified callers: a status code and a
/// message, mirroring what the surrounding service reports outward.
#[derive(Clone, Debug)]
pub struct APIError {
    pub code: u16,
    pub msg: Vec<u8>,
}

impl APIError {
    /// The opaque server error: all internal causes collapse to this.
    pub fn default() -> (r: APIError)
        ensures
            r.code == 500,
    {
        APIError { code: 500, msg: Vec::new() }
    }

    pub fn new(code: u16, msg: Vec<u8>) -> (r: APIError)
        ensures
            r.code == code,
            r.msg@ == msg@,
    {
        APIError { code, msg }
    }
}

} // verus!
