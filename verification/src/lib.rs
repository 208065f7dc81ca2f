//! Credential and session lifecycle engine for an identity provider.
//!
//! The library authenticates end users, issues and verifies opaque session
//! tokens, protects a TOTP second factor, runs an encrypted command tunnel
//! for login/signup/password operations, and acts as an OAuth2 authorization
//! server. All state lives in an in-memory [`store::Store`]; every operation
//! is a verified transition on it. Calls into cryptographic crates stand
//! behind trusted wrappers whose contracts name what they rely on.

use vstd::prelude::*;

pub mod errors;
pub mod model;
pub mod crypto;
pub mod bytes;
pub mod store;
pub mod token;
pub mod login;
pub mod signup;
pub mod envelope;
pub mod mfa;
pub mod verifyflow;
pub mod oauth;
pub mod password;
pub mod account;
pub mod tunnel;
pub mod cookies;
pub mod avatar;
pub mod apps;
pub mod patreon;
pub mod requests;

verus! {

/// Bytes accepted in random tokens: ASCII letters and digits.
pub open spec fn is_token_byte(b: u8) -> bool {
    (0x30 <= b <= 0x39) || (0x41 <= b <= 0x5a) || (0x61 <= b <= 0x7a)
}

} // verus!
