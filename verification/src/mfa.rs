//! The second factor: TOTP enrollment, confirmation, verification and
//! backup codes.

use vstd::prelude::*;

use crate::bytes::bytes_clone;
use crate::crypto::{hash_matches, hash_secret, random_token};
use crate::envelope::{open_for_user, seal_for_user, spec_open_for_user, VaultConfig};
use crate::model::{Session, User};
use crate::store::Store;

verus! {

/// Whether the six-digit TOTP configuration (SHA-1, 30 s step, one step
/// of skew) accepts `code` for `secret` at `time`. Deterministic in the
/// three; named, not written out.
pub uninterp spec fn totp_accepts(secret: Seq<u8>, code: Seq<u8>, time: u64) -> bool;

/// Relies on totp-rs's `Builder` and `Totp::check` with SHA-1, 6 digits,
/// 30-second steps and one step of skew: acceptance is a function of the
/// secret, the code and the time alone, which `totp_accepts` names. A
/// code that is not UTF-8 is accepted nowhere. The time bound keeps the
/// crate's step-window arithmetic, which walks one step past `time`,
/// inside the unsigned range.
#[verifier::external_body]
pub fn totp_check(secret: &Vec<u8>, code: &Vec<u8>, time: u64) -> (r: bool)
    requires
        secret@.len() >= 16,
        time <= u64::MAX - 30,
    ensures
        r == totp_accepts(secret@, code@, time),
{
    let b = totp_rs::Builder::new().with_algorithm(totp_rs::Algorithm::SHA1).with_digits(6)
        .with_skew(1).with_step_duration(30).with_secret(secret.clone());
    let totp = match b.build() { Err(_) => return false, Ok(t) => t };
    match core::str::from_utf8(code) {
        Err(_) => false,
        Ok(c) => totp.check(c, time).is_some(),
    }
}

/// The otpauth provisioning URL for a secret under an issuer and account
/// label. Deterministic in the three.
pub uninterp spec fn totp_url_of(secret: Seq<u8>, issuer: Seq<char>, account: Seq<u8>) -> Seq<u8>;

/// Relies on totp-rs's `Totp::to_url` under the same configuration as
/// [`totp_check`]: deterministic in the secret, issuer and account name,
/// which `totp_url_of` names. An account or issuer the crate refuses
/// (a colon, an empty account) yields nothing.
#[verifier::external_body]
fn totp_provisioning_url(secret: &Vec<u8>, issuer: &str, account: &Vec<u8>) -> (r: Option<Vec<u8>>)
    requires
        secret@.len() >= 16,
    ensures
        r matches Some(u) ==> u@ == totp_url_of(secret@, issuer@, account@),
{
    let account = match core::str::from_utf8(account) { Err(_) => return None, Ok(a) => a };
    let b = totp_rs::Builder::new().with_algorithm(totp_rs::Algorithm::SHA1).with_digits(6)
        .with_skew(1).with_step_duration(30).with_secret(secret.clone())
        .with_issuer(Some(issuer)).with_account_name(account);
    let totp = match b.build() { Err(_) => return None, Ok(t) => t };
    match totp.to_url() {
        Err(_) => None,
        Ok(u) => Some(u.into_bytes()),
    }
}

/// The base32 form of a secret, as authenticator apps take it.
pub uninterp spec fn base32_of(data: Seq<u8>) -> Seq<u8>;

/// Relies on totp-rs's `Secret::to_base32`: a deterministic encoding of
/// the bytes, which `base32_of` names.
#[verifier::external_body]
fn totp_secret_base32(secret: &Vec<u8>) -> (r: Vec<u8>)
    ensures
        r@ == base32_of(secret@),
{
    totp_rs::Secret::from(secret.clone()).to_base32().into_bytes()
}

/// The issuer label shown in authenticator apps.
pub const MFA_ISSUER: &'static str = "Phaze ID";

/// Length of the random shared secret.
pub const MFA_SECRET_LEN: usize = 16;

/// How many backup codes one confirmation hands out.
pub const BACKUP_CODE_COUNT: usize = 6;

/// Length of one backup code.
pub const BACKUP_CODE_LEN: usize = 8;

/// Failures of the second-factor operations.
#[derive(Clone, Copy, Debug, PartialEq, Eq, Structural)]
pub enum MfaError {
    /// The second factor is already confirmed.
    AlreadyEnabled,
    /// No enrollment was begun, or none is confirmed.
    NotEnrolled,
    /// The stored secret does not open under the user's key.
    SecretUnreadable,
    /// The submitted code does not match the current time step.
    BadCode,
}

/// Provisioning material handed to the user at the start of enrollment.
#[derive(Debug)]
pub struct MfaEnrollment {
    /// The raw shared secret.
    pub secret: Vec<u8>,
    /// The otpauth URL, when the username admits one.
    pub url: Option<Vec<u8>>,
    /// The secret in base32, for manual entry.
    pub secret_base32: Vec<u8>,
}

/// What [`begin_enrollment`] reports.
#[derive(Debug)]
pub enum EnrollmentStatus {
    /// The second factor is already confirmed; nothing was changed.
    AlreadyEnabled,
    /// A fresh secret was generated and stored unconfirmed.
    Started(MfaEnrollment),
}

/// Begin enrollment: generate a shared secret, store it sealed and still
/// unconfirmed (`has_mfa` stays false until [`confirm_enrollment`]), and
/// hand back the provisioning material.
pub fn begin_enrollment(store: &mut Store, ui: usize, cfg: &VaultConfig) -> (r: EnrollmentStatus)
    requires
        old(store).wf(),
        ui < old(store).users@.len(),
    ensures
        final(store).wf(),
        final(store).sessions@ == old(store).sessions@,
        final(store).oauth_apps@ == old(store).oauth_apps@,
        final(store).oauth_codes@ == old(store).oauth_codes@,
        final(store).oauth_sessions@ == old(store).oauth_sessions@,
        old(store).users@[ui as int].has_mfa ==> r is AlreadyEnabled && final(store).users@ == old(
            store,
        ).users@,
        !old(store).users@[ui as int].has_mfa ==> (r matches EnrollmentStatus::Started(e) && {
            let u0 = old(store).users@[ui as int];
            let u1 = final(store).users@[ui as int];
            &&& final(store).users@ == old(store).users@.update(ui as int, u1)
            &&& e.secret@.len() == MFA_SECRET_LEN
            &&& u1.mfa_string matches Some(blob) && spec_open_for_user(*cfg, u1, blob@) == Some(
                e.secret@,
            )
            &&& u1.has_mfa == false
            &&& u1 == User { mfa_string: u1.mfa_string, ..u0 }
            &&& e.secret_base32@ == base32_of(e.secret@)
            &&& (e.url matches Some(u) ==> u@ == totp_url_of(e.secret@, MFA_ISSUER@, u0.username@))
        }),
{
    if store.users[ui].has_mfa {
        proof {
            assert(store.users@ =~= old(store).users@);
        }
        return EnrollmentStatus::AlreadyEnabled;
    }
    let secret = random_token(MFA_SECRET_LEN);
    let mut u = store.users.remove(ui);
    let ghost u0 = u;
    let sealed = seal_for_user(cfg, &u, &secret);
    u.mfa_string = Some(sealed);
    let url = totp_provisioning_url(&secret, MFA_ISSUER, &u.username);
    let secret_base32 = totp_secret_base32(&secret);
    store.users.insert(ui, u);
    proof {
        assert(store.users@ =~= old(store).users@.update(
            ui as int,
            store.users@[ui as int],
        ));
        assert forall|k: int| 0 <= k < store.users@.len() implies (#[trigger] store.users@[k]).wf()
            by {
            if k != ui as int {
                assert(store.users@[k] == old(store).users@[k]);
            }
        }
        assert(store.users@[ui as int].id@ == u0.id@);
    }
    EnrollmentStatus::Started(MfaEnrollment { secret, url, secret_base32 })
}

/// Confirm enrollment with a current code.
///
/// Succeeds exactly when no second factor is confirmed yet, a sealed
/// secret is stored and opens, and the code matches the current time
/// step; then `has_mfa` flips true — once, since a second call finds it
/// already enabled — and exactly [`BACKUP_CODE_COUNT`] fresh, pairwise
/// distinct backup codes are handed out raw while only their salted
/// hashes are stored. Each code opens with its position digit — which
/// also makes the set distinct by construction — followed by random
/// characters.
pub fn confirm_enrollment(store: &mut Store, ui: usize, code: &Vec<u8>, time: u64, cfg: &VaultConfig)
    -> (r: Result<Vec<Vec<u8>>, MfaError>)
    requires
        old(store).wf(),
        ui < old(store).users@.len(),
        time <= u64::MAX - 30,
    ensures
        final(store).wf(),
        final(store).sessions@ == old(store).sessions@,
        final(store).oauth_apps@ == old(store).oauth_apps@,
        final(store).oauth_codes@ == old(store).oauth_codes@,
        final(store).oauth_sessions@ == old(store).oauth_sessions@,
        ({
            let u0 = old(store).users@[ui as int];
            &&& (r == Err::<Vec<Vec<u8>>, MfaError>(MfaError::AlreadyEnabled) <==> u0.has_mfa)
            &&& (r == Err::<Vec<Vec<u8>>, MfaError>(MfaError::NotEnrolled) <==> !u0.has_mfa
                && u0.mfa_string is None)
            &&& (!u0.has_mfa ==> (u0.mfa_string matches Some(blob) ==> {
                let opened = spec_open_for_user(*cfg, u0, blob@);
                &&& (r == Err::<Vec<Vec<u8>>, MfaError>(MfaError::SecretUnreadable) <==> opened
                    is None || (opened matches Some(sec) && sec.len() < 16))
                &&& (opened matches Some(sec) ==> (sec.len() >= 16 ==> {
                    &&& (r is Ok <==> totp_accepts(sec, code@, time))
                    &&& (r matches Ok(raws) ==> {
                        let u1 = final(store).users@[ui as int];
                        &&& final(store).users@ == old(store).users@.update(ui as int, u1)
                        &&& u1.has_mfa == true
                        &&& u1 == User {
                            has_mfa: true,
                            backup_codes: u1.backup_codes,
                            ..u0
                        }
                        &&& u1.backup_codes@.len() == BACKUP_CODE_COUNT
                        &&& raws@.len() == BACKUP_CODE_COUNT
                        &&& forall|i: int|
                            0 <= i < BACKUP_CODE_COUNT ==> (#[trigger] raws@[i]@).len()
                                == BACKUP_CODE_LEN && hash_matches(
                                u1.backup_codes@[i]@,
                                raws@[i]@,
                            )
                        &&& forall|i: int, j: int|
                            0 <= i < j < BACKUP_CODE_COUNT ==> (#[trigger] raws@[i]@) != (
                            #[trigger] raws@[j]@)
                    })
                }))
            }))
            &&& (r is Err ==> final(store).users@ == old(store).users@)
        }),
{
    if store.users[ui].has_mfa {
        proof {
            assert(store.users@ =~= old(store).users@);
        }
        return Err(MfaError::AlreadyEnabled);
    }
    let sealed = match &store.users[ui].mfa_string {
        None => {
            proof {
                assert(store.users@ =~= old(store).users@);
            }
            return Err(MfaError::NotEnrolled);
        },
        Some(b) => bytes_clone(b),
    };
    let secret = match open_for_user(cfg, &store.users[ui], &sealed) {
        None => {
            proof {
                assert(store.users@ =~= old(store).users@);
            }
            return Err(MfaError::SecretUnreadable);
        },
        Some(s) => s,
    };
    if secret.len() < 16 {
        proof {
            assert(store.users@ =~= old(store).users@);
        }
        return Err(MfaError::SecretUnreadable);
    }
    if !totp_check(&secret, code, time) {
        proof {
            assert(store.users@ =~= old(store).users@);
        }
        return Err(MfaError::BadCode);
    }
    let mut raws: Vec<Vec<u8>> = Vec::new();
    let mut hashes: Vec<Vec<u8>> = Vec::new();
    let mut i: usize = 0;
    while i < BACKUP_CODE_COUNT
        invariant
            0 <= i <= BACKUP_CODE_COUNT,
            raws@.len() == i,
            hashes@.len() == i,
            forall|j: int|
                0 <= j < i ==> (#[trigger] raws@[j]@).len() == BACKUP_CODE_LEN && hash_matches(
                    hashes@[j]@,
                    raws@[j]@,
                ),
            forall|j: int| 0 <= j < i ==> (#[trigger] raws@[j]@)[0] == 0x31 + j,
        decreases BACKUP_CODE_COUNT - i,
    {
        let mut raw: Vec<u8> = Vec::new();
        raw.push(0x31 + (i as u8));
        let tail = random_token(BACKUP_CODE_LEN - 1);
        let raw = crate::bytes::bytes_concat(&raw, &tail);
        let hash = hash_secret(&raw);
        proof {
            assert(raw@[0] == 0x31 + i);
        }
        raws.push(raw);
        hashes.push(hash);
        i += 1;
    }
    proof {
        assert forall|a: int, b: int|
            0 <= a < b < BACKUP_CODE_COUNT implies (#[trigger] raws@[a]@) != (
        #[trigger] raws@[b]@) by {
            assert(raws@[a]@[0] == 0x31 + a);
            assert(raws@[b]@[0] == 0x31 + b);
        }
    }
    let mut u = store.users.remove(ui);
    u.has_mfa = true;
    u.backup_codes = hashes;
    store.users.insert(ui, u);
    proof {
        assert(store.users@ =~= old(store).users@.update(ui as int, store.users@[ui as int]));
        assert forall|k: int| 0 <= k < store.users@.len() implies (#[trigger] store.users@[k]).wf()
            by {
            if k != ui as int {
                assert(store.users@[k] == old(store).users@[k]);
            }
        }
    }
    Ok(raws)
}

/// Disable the second factor: permitted only while it is enabled; clears
/// the secret and the backup codes.
pub fn disable_mfa(store: &mut Store, ui: usize) -> (r: Result<(), MfaError>)
    requires
        old(store).wf(),
        ui < old(store).users@.len(),
    ensures
        final(store).wf(),
        final(store).sessions@ == old(store).sessions@,
        final(store).oauth_apps@ == old(store).oauth_apps@,
        final(store).oauth_codes@ == old(store).oauth_codes@,
        final(store).oauth_sessions@ == old(store).oauth_sessions@,
        ({
            let u0 = old(store).users@[ui as int];
            &&& (r is Ok <==> u0.has_mfa)
            &&& (r is Err ==> r == Err::<(), MfaError>(MfaError::NotEnrolled)
                && final(store).users@ == old(store).users@)
            &&& (r is Ok ==> {
                let u1 = final(store).users@[ui as int];
                &&& final(store).users@ == old(store).users@.update(ui as int, u1)
                &&& u1 == User {
                    has_mfa: false,
                    mfa_string: None,
                    backup_codes: u1.backup_codes,
                    ..u0
                }
                &&& u1.backup_codes@.len() == 0
            })
        }),
{
    if !store.users[ui].has_mfa {
        proof {
            assert(store.users@ =~= old(store).users@);
        }
        return Err(MfaError::NotEnrolled);
    }
    let mut u = store.users.remove(ui);
    u.has_mfa = false;
    u.mfa_string = None;
    u.backup_codes = Vec::new();
    store.users.insert(ui, u);
    proof {
        assert(store.users@ =~= old(store).users@.update(ui as int, store.users@[ui as int]));
        assert forall|k: int| 0 <= k < store.users@.len() implies (#[trigger] store.users@[k]).wf()
            by {
            if k != ui as int {
                assert(store.users@[k] == old(store).users@[k]);
            }
        }
    }
    Ok(())
}

/// Verify a submitted TOTP code for a session: on a match, the session
/// becomes valid. Requires a confirmed second factor whose sealed secret
/// opens; accepts the current time step only.
pub fn verify_mfa_session(
    store: &mut Store,
    ui: usize,
    si: usize,
    code: &Vec<u8>,
    time: u64,
    cfg: &VaultConfig,
) -> (r: Result<(), MfaError>)
    requires
        old(store).wf(),
        ui < old(store).users@.len(),
        si < old(store).sessions@.len(),
        time <= u64::MAX - 30,
    ensures
        final(store).wf(),
        final(store).users@ == old(store).users@,
        final(store).oauth_apps@ == old(store).oauth_apps@,
        final(store).oauth_codes@ == old(store).oauth_codes@,
        final(store).oauth_sessions@ == old(store).oauth_sessions@,
        ({
            let u = old(store).users@[ui as int];
            let s0 = old(store).sessions@[si as int];
            &&& (r == Err::<(), MfaError>(MfaError::NotEnrolled) <==> !u.has_mfa)
            &&& (u.has_mfa ==> {
                let blob = u.mfa_string->0;
                let opened = spec_open_for_user(*cfg, u, blob@);
                &&& (r == Err::<(), MfaError>(MfaError::SecretUnreadable) <==> opened is None || (
                opened matches Some(sec) && sec.len() < 16))
                &&& (opened matches Some(sec) ==> (sec.len() >= 16 ==> {
                    &&& (r is Ok <==> totp_accepts(sec, code@, time))
                    &&& (r is Ok ==> final(store).sessions@ == old(store).sessions@.update(
                        si as int,
                        Session { valid: true, ..s0 },
                    ))
                }))
            })
            &&& (r is Err ==> final(store).sessions@ == old(store).sessions@)
        }),
{
    if !store.users[ui].has_mfa {
        proof {
            assert(store.sessions@ =~= old(store).sessions@);
        }
        return Err(MfaError::NotEnrolled);
    }
    let sealed = match &store.users[ui].mfa_string {
        None => {
            // Well-formedness rules this out: a confirmed factor stores
            // its secret.
            proof {
                assert(false);
            }
            return Err(MfaError::SecretUnreadable);
        },
        Some(b) => bytes_clone(b),
    };
    let secret = match open_for_user(cfg, &store.users[ui], &sealed) {
        None => {
            proof {
                assert(store.sessions@ =~= old(store).sessions@);
            }
            return Err(MfaError::SecretUnreadable);
        },
        Some(s) => s,
    };
    if secret.len() < 16 {
        proof {
            assert(store.sessions@ =~= old(store).sessions@);
        }
        return Err(MfaError::SecretUnreadable);
    }
    if !totp_check(&secret, code, time) {
        proof {
            assert(store.sessions@ =~= old(store).sessions@);
        }
        return Err(MfaError::BadCode);
    }
    let mut s = store.sessions.remove(si);
    s.valid = true;
    store.sessions.insert(si, s);
    proof {
        assert(store.sessions@ =~= old(store).sessions@.update(
            si as int,
            store.sessions@[si as int],
        ));
        assert forall|k: int|
            0 <= k < store.sessions@.len() implies (#[trigger] store.sessions@[k]).wf() by {
            if k != si as int {
                assert(store.sessions@[k] == old(store).sessions@[k]);
            }
        }
    }
    Ok(())
}

/// Verify a backup code for a session: if the submitted code verifies
/// against one of the stored hashes, that hash is removed — a backup
/// code is single-use — and the session becomes valid. Requires a
/// confirmed second factor.
pub fn verify_backup_session(store: &mut Store, ui: usize, si: usize, code: &Vec<u8>) -> (r:
    Result<(), MfaError>)
    requires
        old(store).wf(),
        ui < old(store).users@.len(),
        si < old(store).sessions@.len(),
    ensures
        final(store).wf(),
        final(store).oauth_apps@ == old(store).oauth_apps@,
        final(store).oauth_codes@ == old(store).oauth_codes@,
        final(store).oauth_sessions@ == old(store).oauth_sessions@,
        ({
            let u0 = old(store).users@[ui as int];
            let s0 = old(store).sessions@[si as int];
            &&& (r == Err::<(), MfaError>(MfaError::NotEnrolled) <==> !u0.has_mfa)
            &&& (u0.has_mfa ==> {
                &&& (r is Ok <==> exists|i: int|
                    0 <= i < u0.backup_codes@.len() && hash_matches(
                        (#[trigger] u0.backup_codes@[i])@,
                        code@,
                    ))
                &&& (r is Ok ==> exists|i: int|
                    {
                        &&& 0 <= i < u0.backup_codes@.len()
                        &&& hash_matches((#[trigger] u0.backup_codes@[i])@, code@)
                        &&& (forall|j: int|
                            0 <= j < i ==> !hash_matches(
                                (#[trigger] u0.backup_codes@[j])@,
                                code@,
                            ))
                        &&& final(store).users@ == old(store).users@.update(
                            ui as int,
                            final(store).users@[ui as int],
                        )
                        &&& final(store).users@[ui as int] == User {
                            backup_codes: final(store).users@[ui as int].backup_codes,
                            ..u0
                        }
                        &&& final(store).users@[ui as int].backup_codes@
                            == u0.backup_codes@.remove(i)
                        &&& final(store).sessions@ == old(store).sessions@.update(
                            si as int,
                            Session { valid: true, ..s0 },
                        )
                    })
            })
            &&& (r is Err ==> final(store).users@ == old(store).users@ && final(store).sessions@
                == old(store).sessions@)
        }),
{
    if !store.users[ui].has_mfa {
        proof {
            assert(store.users@ =~= old(store).users@);
            assert(store.sessions@ =~= old(store).sessions@);
        }
        return Err(MfaError::NotEnrolled);
    }
    let found = first_matching_backup(&store.users[ui].backup_codes, code);
    let hit = match found {
        None => {
            proof {
                assert(store.users@ =~= old(store).users@);
                assert(store.sessions@ =~= old(store).sessions@);
            }
            return Err(MfaError::BadCode);
        },
        Some(i) => i,
    };
    let mut u = store.users.remove(ui);
    u.backup_codes.remove(hit);
    store.users.insert(ui, u);
    let mut s = store.sessions.remove(si);
    s.valid = true;
    store.sessions.insert(si, s);
    proof {
        assert(store.users@ =~= old(store).users@.update(ui as int, store.users@[ui as int]));
        assert(store.sessions@ =~= old(store).sessions@.update(
            si as int,
            store.sessions@[si as int],
        ));
        assert forall|k: int| 0 <= k < store.users@.len() implies (#[trigger] store.users@[k]).wf()
            by {
            if k != ui as int {
                assert(store.users@[k] == old(store).users@[k]);
            }
        }
        assert forall|k: int|
            0 <= k < store.sessions@.len() implies (#[trigger] store.sessions@[k]).wf() by {
            if k != si as int {
                assert(store.sessions@[k] == old(store).sessions@[k]);
            }
        }
    }
    Ok(())
}

/// Index of the first stored hash that the submitted code verifies
/// against.
fn first_matching_backup(codes: &Vec<Vec<u8>>, code: &Vec<u8>) -> (r: Option<usize>)
    ensures
        r matches Some(i) ==> {
            &&& i < codes@.len()
            &&& hash_matches(codes@[i as int]@, code@)
            &&& forall|j: int| 0 <= j < i ==> !hash_matches((#[trigger] codes@[j])@, code@)
        },
        r is None ==> forall|j: int|
            0 <= j < codes@.len() ==> !hash_matches((#[trigger] codes@[j])@, code@),
{
    let n = codes.len();
    let mut i: usize = 0;
    while i < n
        invariant
            0 <= i <= n,
            n == codes@.len(),
            forall|j: int| 0 <= j < i ==> !hash_matches((#[trigger] codes@[j])@, code@),
        decreases n - i,
    {
        if crate::crypto::verify_secret(code, &codes[i]) {
            return Some(i);
        }
        i += 1;
    }
    None
}

} // verus!
