//! Per-user envelope encryption for secrets at rest.
//!
//! A user's key is derived from a process-wide root secret, a fixed
//! domain-separation label, the user's identifier and a global salt; the
//! sealed blob is `nonce || ciphertext`, carried base64-encoded. Compromise
//! of the stored rows alone, without the root secret, discloses nothing.

use vstd::prelude::*;

use crate::model::User;

use aes_gcm::aead::Aead;
use aes_gcm::{Aes256Gcm, Key, KeyInit, Nonce};
use base64::prelude::BASE64_STANDARD;
use base64::Engine;
use rand::RngCore;

verus! {

/// The base64 (standard alphabet, padded) encoding of `data`.
pub uninterp spec fn b64_of(data: Seq<u8>) -> Seq<u8>;

/// The bytes whose base64 encoding is `text`, if `text` is a canonical
/// encoding of some bytes.
pub uninterp spec fn spec_b64_back(text: Seq<u8>) -> Option<Seq<u8>>;

/// Relies on base64's `Engine::encode` with the standard engine: the
/// encoding is canonical, so decoding it yields the input back.
#[verifier::external_body]
pub fn b64_encode(data: &Vec<u8>) -> (r: Vec<u8>)
    ensures
        r@ == b64_of(data@),
        spec_b64_back(r@) == Some(data@),
{
    BASE64_STANDARD.encode(data).into_bytes()
}

/// Relies on base64's `Engine::decode` with the standard engine, which
/// accepts only canonical encodings: what it hands back encodes to the
/// input, and anything else is rejected.
#[verifier::external_body]
pub fn b64_decode(text: &Vec<u8>) -> (r: Option<Vec<u8>>)
    ensures
        r matches Some(d) ==> b64_of(d@) == text@ && spec_b64_back(text@) == Some(d@),
        r is None ==> spec_b64_back(text@) is None,
{
    match BASE64_STANDARD.decode(text) {
        Ok(d) => Some(d),
        Err(_) => None,
    }
}

/// The 256-bit key derived for a user from the root secret, the
/// domain-separation label, the user's id and the global salt.
pub uninterp spec fn user_key_of(
    context: Seq<char>,
    root: Seq<u8>,
    user_id: Seq<u8>,
    salt: Seq<u8>,
) -> Seq<u8>;

/// Relies on blake3's `Hasher::new_derive_key` / `update` / `finalize`:
/// a deterministic 32-byte digest of the label and the three inputs,
/// which `user_key_of` names.
#[verifier::external_body]
fn blake3_user_key(context: &str, root: &Vec<u8>, user_id: &Vec<u8>, salt: &Vec<u8>) -> (k: Vec<
    u8,
>)
    ensures
        k@ == user_key_of(context@, root@, user_id@, salt@),
        k@.len() == 32,
{
    let key: [u8; 32] = blake3::Hasher::new_derive_key(context)
        .update(root)
        .update(user_id)
        .update(salt)
        .finalize()
        .into();
    key.to_vec()
}

/// What opening a sealed blob under a key yields: the plaintext when the
/// blob is a well-formed `nonce || ciphertext` authenticated under the
/// key, nothing otherwise. Deterministic in the key and the blob.
pub uninterp spec fn open_of(key: Seq<u8>, blob: Seq<u8>) -> Option<Seq<u8>>;

/// Relies on aes-gcm's `Aes256Gcm::encrypt` with a fresh random 12-byte
/// nonce, prepended for storage: whatever nonce was drawn, decrypting the
/// result under the same key returns the plaintext, and the result is
/// nonce, ciphertext and tag long.
#[verifier::external_body]
fn aead_seal(key: &Vec<u8>, plaintext: &Vec<u8>) -> (r: Vec<u8>)
    requires
        key@.len() == 32,
        plaintext@.len() < 0x1000000,
    ensures
        r@.len() == plaintext@.len() + 28,
        open_of(key@, r@) == Some(plaintext@),
{
    let cipher = Aes256Gcm::new(Key::<Aes256Gcm>::from_slice(key));
    let mut nonce_bytes = [0u8; 12];
    rand::rngs::OsRng.fill_bytes(&mut nonce_bytes);
    let nonce = Nonce::from_slice(&nonce_bytes);
    let ciphertext = cipher.encrypt(nonce, plaintext.as_slice()).unwrap();
    let mut out = nonce_bytes.to_vec();
    out.extend_from_slice(&ciphertext);
    out
}

/// Relies on aes-gcm's `Aes256Gcm::decrypt` on a `nonce || ciphertext`
/// blob: a deterministic function of the key and the blob, which
/// `open_of` names; an inauthentic or short blob yields nothing.
#[verifier::external_body]
fn aead_open(key: &Vec<u8>, blob: &Vec<u8>) -> (r: Option<Vec<u8>>)
    requires
        key@.len() == 32,
    ensures
        r matches Some(p) ==> open_of(key@, blob@) == Some(p@),
        r is None ==> open_of(key@, blob@) is None,
{
    if blob.len() < 12 {
        return None;
    }
    let cipher = Aes256Gcm::new(Key::<Aes256Gcm>::from_slice(key));
    let (nonce, ciphertext) = blob.split_at(12);
    match cipher.decrypt(Nonce::from_slice(nonce), ciphertext) {
        Ok(p) => Some(p),
        Err(_) => None,
    }
}

/// The fixed domain-separation label of the per-user key derivation.
/// Changing it would orphan every sealed field.
pub const USER_KEY_CONTEXT: &'static str = "id.phazed.xyz 1748375760977 user-key";

/// Immutable key material injected at process start.
#[derive(Debug)]
pub struct VaultConfig {
    /// The process-wide root secret.
    pub root_key: Vec<u8>,
    /// The global salt mixed into every derived key.
    pub root_salt: Vec<u8>,
}

/// The key the vault uses for `user`.
pub open spec fn spec_user_key(cfg: VaultConfig, user: User) -> Seq<u8> {
    user_key_of(USER_KEY_CONTEXT@, cfg.root_key@, user.id@, cfg.root_salt@)
}

/// What a blob sealed for a user opens to.
pub open spec fn spec_open_for_user(cfg: VaultConfig, user: User, blob: Seq<u8>) -> Option<
    Seq<u8>,
> {
    match spec_b64_back(blob) {
        None => None,
        Some(raw) => open_of(spec_user_key(cfg, user), raw),
    }
}

/// Seal a secret for a user: derive the user's key, seal, and encode the
/// blob for storage. Opening the result for the same user yields the
/// secret back.
pub fn seal_for_user(cfg: &VaultConfig, user: &User, plaintext: &Vec<u8>) -> (r: Vec<u8>)
    requires
        plaintext@.len() < 0x1000000,
    ensures
        spec_b64_back(r@) matches Some(raw) && open_of(spec_user_key(*cfg, *user), raw) == Some(
            plaintext@,
        ),
{
    let key = blake3_user_key(USER_KEY_CONTEXT, &cfg.root_key, &user.id, &cfg.root_salt);
    let sealed = aead_seal(&key, plaintext);
    b64_encode(&sealed)
}

/// Open a blob sealed for a user. Yields the plaintext exactly when the
/// blob decodes and authenticates under the user's derived key.
pub fn open_for_user(cfg: &VaultConfig, user: &User, blob: &Vec<u8>) -> (r: Option<Vec<u8>>)
    ensures
        r matches Some(p) ==> spec_open_for_user(*cfg, *user, blob@) == Some(p@),
        r is None ==> spec_open_for_user(*cfg, *user, blob@) is None,
{
    let raw = b64_decode(blob);
    match raw {
        None => None,
        Some(raw) => {
            let key = blake3_user_key(USER_KEY_CONTEXT, &cfg.root_key, &user.id, &cfg.root_salt);
            aead_open(&key, &raw)
        },
    }
}

/// Law: the vault's round trip — a secret sealed for a user opens, for
/// the same user and configuration, to exactly that secret.
pub proof fn lemma_seal_open_round_trip(
    cfg: VaultConfig,
    user: User,
    plaintext: Seq<u8>,
    sealed: Seq<u8>,
)
    requires
        spec_b64_back(sealed) matches Some(raw) && open_of(spec_user_key(cfg, user), raw) == Some(
            plaintext,
        ),
    ensures
        spec_open_for_user(cfg, user, sealed) == Some(plaintext),
{
}

} // verus!
