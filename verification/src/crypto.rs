//! Trusted wrappers around the cryptographic outside crates.
//!
//! Each wrapper's contract states only what the crate's source or
//! documentation shows of the call; every proof in the library that touches
//! secret material rests on these contracts.

use vstd::prelude::*;

use crate::is_token_byte;
use crate::model::{is_lower_hex, is_object_id};

use argon2::{PasswordHasher, PasswordVerifier};
use rand::Rng;

verus! {

/// Whether the salted hash `hash` verifies against the secret `secret`
/// under the memory-hard verifier. Verification is a deterministic function
/// of the two byte strings; what it computes is named, not written out.
pub uninterp spec fn hash_matches(hash: Seq<u8>, secret: Seq<u8>) -> bool;

/// Relies on argon2's `Argon2::hash_password` (with a fresh random salt)
/// and the PHC string form of its result: whatever salt was drawn,
/// `verify_password` accepts the produced hash for this secret, which is
/// what `hash_matches` names. Within the admitted length the call fails
/// only if the operating system's random source does while drawing the
/// salt — an environmental fault, like running out of memory.
#[verifier::external_body]
pub fn hash_secret(secret: &Vec<u8>) -> (h: Vec<u8>)
    requires
        secret@.len() <= 0xffff_ffff,
    ensures
        hash_matches(h@, secret@),
{
    let hash = argon2::Argon2::default().hash_password(secret).unwrap();
    hash.to_string().into_bytes()
}

/// Relies on argon2's `Argon2::verify_password` over a parsed PHC string:
/// it accepts exactly when recomputing the hash of `secret` under the
/// stored salt and parameters reproduces the stored output. A stored value
/// that is not UTF-8 or not a PHC string verifies nothing.
#[verifier::external_body]
pub fn verify_secret(secret: &Vec<u8>, hash: &Vec<u8>) -> (r: bool)
    ensures
        r == hash_matches(hash@, secret@),
{
    match core::str::from_utf8(hash) {
        Err(_) => false,
        Ok(phc) => argon2::Argon2::default().verify_password(secret, phc).is_ok(),
    }
}

/// Relies on rand's `Alphanumeric` distribution: every sampled byte is an
/// ASCII letter or digit. The values themselves are random; nothing more
/// is promised of them.
#[verifier::external_body]
pub fn random_token(len: usize) -> (t: Vec<u8>)
    ensures
        t@.len() == len,
        forall|i: int| 0 <= i < t@.len() ==> is_token_byte(#[trigger] t@[i]),
{
    rand::thread_rng()
        .sample_iter(&rand::distributions::Alphanumeric)
        .take(len)
        .collect()
}

/// Relies on bson's `ObjectId::new` and `ObjectId::to_hex`: the hex form of
/// a 12-byte identifier is 24 lowercase hex characters. Freshness is not
/// promised; callers that need an unused id must check for themselves.
/// The crate refuses to run with a system clock before 1970 — an
/// environmental fault.
#[verifier::external_body]
pub fn fresh_id() -> (id: Vec<u8>)
    ensures
        is_object_id(id@),
{
    bson::oid::ObjectId::new().to_hex().into_bytes()
}

/// Relies on chrono's `Utc::now`: seconds since the epoch. Nothing is
/// promised of the value; engine operations take the timestamp as an
/// argument and are verified for every value of it.
#[verifier::external_body]
pub fn now_ts() -> i64 {
    chrono::Utc::now().timestamp()
}

/// Exec mirror of [`is_lower_hex`].
pub fn lower_hex_byte(b: u8) -> (r: bool)
    ensures
        r == is_lower_hex(b),
{
    (0x30 <= b && b <= 0x39) || (0x61 <= b && b <= 0x66)
}

} // verus!
