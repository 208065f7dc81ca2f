//! Walking the verification chain: resolving a token into an
//! authenticated (user, session) pair, confirming the mailed email code,
//! and the plain confirmation step for accounts without a second factor.

use vstd::prelude::*;

use crate::bytes::bytes_eq;
use crate::errors::{ResolveError, VerifyState};
use crate::model::{Session, User};
use crate::store::Store;
use crate::token::{identify, spec_identify, spec_verify_state, verified};

verus! {

/// Why a caller could not act as an authenticated, fully verified user.
#[derive(Clone, Copy, Debug, PartialEq, Eq, Structural)]
pub enum AuthFailure {
    /// The token did not resolve; carries the internal cause.
    Resolve(ResolveError),
    /// The token resolved but a verification procedure still stands.
    Pending(VerifyState),
}

/// Resolve a token and demand the fully verified state; every
/// privileged operation stands behind this check.
pub fn authenticate(
    store: &mut Store,
    token: &Vec<u8>,
    now: i64,
    observed_ip: &Vec<u8>,
    bind_ip: bool,
) -> (r: Result<(usize, usize), AuthFailure>)
    requires
        old(store).wf(),
    ensures
        final(store).wf(),
        final(store).users@ == old(store).users@,
        final(store).oauth_apps@ == old(store).oauth_apps@,
        final(store).oauth_codes@ == old(store).oauth_codes@,
        final(store).oauth_sessions@ == old(store).oauth_sessions@,
        ({
            let o = spec_identify(
                old(store).users@,
                old(store).sessions@,
                token@,
                now,
                observed_ip@,
                bind_ip,
            );
            &&& final(store).sessions@ == o.sessions
            &&& match r {
                Ok((ui, si)) => {
                    &&& o.result == Ok::<(int, int), ResolveError>((ui as int, si as int))
                    &&& ui < final(store).users@.len()
                    &&& si < final(store).sessions@.len()
                    &&& spec_verify_state(
                        final(store).users@[ui as int],
                        final(store).sessions@[si as int],
                    ) is Verified
                },
                Err(AuthFailure::Resolve(e)) => o.result == Err::<(int, int), ResolveError>(e),
                Err(AuthFailure::Pending(st)) => {
                    &&& !(st is Verified)
                    &&& o.result matches Ok((ui, si)) && spec_verify_state(
                        old(store).users@[ui],
                        old(store).sessions@[si],
                    ) == st
                },
            }
        }),
{
    match identify(store, token, now, observed_ip, bind_ip) {
        Err(e) => Err(AuthFailure::Resolve(e)),
        Ok((ui, si)) => {
            let st = verified(&store.users[ui], &store.sessions[si]);
            match st {
                VerifyState::Verified => Ok((ui, si)),
                _ => Err(AuthFailure::Pending(st)),
            }
        },
    }
}

/// Failures of the verification steps themselves.
#[derive(Clone, Copy, Debug, PartialEq, Eq, Structural)]
pub enum VerifyError {
    /// The account's email is not confirmed yet.
    EmailNotVerified,
    /// The account's email is already confirmed.
    EmailAlreadyVerified,
    /// The submitted code does not match the mailed one.
    BadCode,
    /// A second factor is enrolled; the plain confirmation does not apply.
    MfaRequired,
}

/// Confirm the mailed signup code: flips `email_verified` true, clears
/// the code, and — since accounts without a second factor fold the email
/// step and the first-factor confirmation into one — also marks the
/// session valid when no second factor is enrolled.
pub fn verify_email_session(store: &mut Store, ui: usize, si: usize, code: &Vec<u8>) -> (r: Result<
    (),
    VerifyError,
>)
    requires
        old(store).wf(),
        ui < old(store).users@.len(),
        si < old(store).sessions@.len(),
    ensures
        final(store).wf(),
        final(store).oauth_apps@ == old(store).oauth_apps@,
        final(store).oauth_codes@ == old(store).oauth_codes@,
        final(store).oauth_sessions@ == old(store).oauth_sessions@,
        ({
            let u0 = old(store).users@[ui as int];
            let s0 = old(store).sessions@[si as int];
            &&& (r == Err::<(), VerifyError>(VerifyError::EmailAlreadyVerified) <==>
                u0.email_verified)
            &&& (!u0.email_verified ==> {
                &&& (r == Err::<(), VerifyError>(VerifyError::BadCode) <==> code@
                    != u0.email_verification_code@)
                &&& (r is Ok <==> code@ == u0.email_verification_code@)
                &&& (r is Ok ==> {
                    let u1 = final(store).users@[ui as int];
                    &&& final(store).users@ == old(store).users@.update(ui as int, u1)
                    &&& u1 == User {
                        email_verified: true,
                        email_verification_code: u1.email_verification_code,
                        ..u0
                    }
                    &&& u1.email_verification_code@.len() == 0
                    &&& (!u0.has_mfa ==> final(store).sessions@ == old(store).sessions@.update(
                        si as int,
                        Session { valid: true, ..s0 },
                    ))
                    &&& (u0.has_mfa ==> final(store).sessions@ == old(store).sessions@)
                })
            })
            &&& (r is Err ==> final(store).users@ == old(store).users@ && final(store).sessions@
                == old(store).sessions@)
        }),
{
    if store.users[ui].email_verified {
        proof {
            assert(store.users@ =~= old(store).users@);
            assert(store.sessions@ =~= old(store).sessions@);
        }
        return Err(VerifyError::EmailAlreadyVerified);
    }
    if !bytes_eq(code, &store.users[ui].email_verification_code) {
        proof {
            assert(store.users@ =~= old(store).users@);
            assert(store.sessions@ =~= old(store).sessions@);
        }
        return Err(VerifyError::BadCode);
    }
    let mut u = store.users.remove(ui);
    let has_mfa = u.has_mfa;
    u.email_verified = true;
    u.email_verification_code = Vec::new();
    store.users.insert(ui, u);
    proof {
        assert(store.users@ =~= old(store).users@.update(ui as int, store.users@[ui as int]));
        assert forall|k: int| 0 <= k < store.users@.len() implies (#[trigger] store.users@[k]).wf()
            by {
            if k != ui as int {
                assert(store.users@[k] == old(store).users@[k]);
            }
        }
    }
    if !has_mfa {
        let mut s = store.sessions.remove(si);
        s.valid = true;
        store.sessions.insert(si, s);
        proof {
            assert(store.sessions@ =~= old(store).sessions@.update(
                si as int,
                store.sessions@[si as int],
            ));
            assert forall|k: int|
                0 <= k < store.sessions@.len() implies (#[trigger] store.sessions@[k]).wf() by {
                if k != si as int {
                    assert(store.sessions@[k] == old(store).sessions@[k]);
                }
            }
        }
    } else {
        proof {
            assert(store.sessions@ =~= old(store).sessions@);
        }
    }
    Ok(())
}

/// The plain confirmation step for accounts without a second factor:
/// with the email confirmed and no factor enrolled, marks the session
/// valid (idempotently).
pub fn confirm_session(store: &mut Store, ui: usize, si: usize) -> (r: Result<(), VerifyError>)
    requires
        old(store).wf(),
        ui < old(store).users@.len(),
        si < old(store).sessions@.len(),
    ensures
        final(store).wf(),
        final(store).users@ == old(store).users@,
        final(store).oauth_apps@ == old(store).oauth_apps@,
        final(store).oauth_codes@ == old(store).oauth_codes@,
        final(store).oauth_sessions@ == old(store).oauth_sessions@,
        ({
            let u = old(store).users@[ui as int];
            let s0 = old(store).sessions@[si as int];
            &&& (r == Err::<(), VerifyError>(VerifyError::EmailNotVerified) <==>
                !u.email_verified)
            &&& (r == Err::<(), VerifyError>(VerifyError::MfaRequired) <==> u.email_verified
                && u.has_mfa)
            &&& (r is Ok <==> u.email_verified && !u.has_mfa)
            &&& (r is Ok ==> final(store).sessions@ == old(store).sessions@.update(
                si as int,
                Session { valid: true, ..s0 },
            ))
            &&& (r is Err ==> final(store).sessions@ == old(store).sessions@)
        }),
{
    if !store.users[ui].email_verified {
        proof {
            assert(store.sessions@ =~= old(store).sessions@);
        }
        return Err(VerifyError::EmailNotVerified);
    }
    if store.users[ui].has_mfa {
        proof {
            assert(store.sessions@ =~= old(store).sessions@);
        }
        return Err(VerifyError::MfaRequired);
    }
    let mut s = store.sessions.remove(si);
    s.valid = true;
    store.sessions.insert(si, s);
    proof {
        assert(store.sessions@ =~= old(store).sessions@.update(
            si as int,
            store.sessions@[si as int],
        ));
        assert forall|k: int|
            0 <= k < store.sessions@.len() implies (#[trigger] store.sessions@[k]).wf() by {
            if k != si as int {
                assert(store.sessions@[k] == old(store).sessions@[k]);
            }
        }
    }
    Ok(())
}


/// The name with which the remaining procedure is reported.
pub open spec fn spec_procedure(st: VerifyState) -> Seq<u8> {
    match st {
        VerifyState::NeedsEmail => seq![0x56u8, 0x45, 0x52, 0x49, 0x46, 0x59, 0x5f, 0x45, 0x4d, 0x41, 0x49, 0x4c],
        VerifyState::NeedsMfa => seq![0x56u8, 0x45, 0x52, 0x49, 0x46, 0x59, 0x5f, 0x4d, 0x46, 0x41],
        VerifyState::NeedsConfirm => seq![0x56u8, 0x45, 0x52, 0x49, 0x46, 0x59],
        VerifyState::Verified => seq![0x4eu8, 0x4f, 0x4e, 0x45],
    }
}

/// Where the user is sent next, before the encoded return target.
pub open spec fn spec_endpoint_prefix(st: VerifyState) -> Seq<u8> {
    match st {
        VerifyState::NeedsEmail => seq![0x2fu8, 0x76, 0x65, 0x72, 0x69, 0x66, 0x79, 0x2d, 0x65, 0x6d, 0x61, 0x69, 0x6c, 0x3f, 0x72, 0x65, 0x64, 0x69, 0x72, 0x65, 0x63, 0x74, 0x5f, 0x74, 0x6f, 0x3d],
        VerifyState::NeedsMfa => seq![0x2fu8, 0x76, 0x65, 0x72, 0x69, 0x66, 0x79, 0x2d, 0x6d, 0x66, 0x61, 0x3f, 0x72, 0x65, 0x64, 0x69, 0x72, 0x65, 0x63, 0x74, 0x5f, 0x74, 0x6f, 0x3d],
        VerifyState::NeedsConfirm => seq![0x2fu8, 0x76, 0x65, 0x72, 0x69, 0x66, 0x79, 0x2d, 0x65, 0x6d, 0x61, 0x69, 0x6c, 0x3f, 0x72, 0x65, 0x64, 0x69, 0x72, 0x65, 0x63, 0x74, 0x5f, 0x74, 0x6f, 0x3d],
        VerifyState::Verified => Seq::empty(),
    }
}

/// The percent-encoding of a byte string, as it rides in a query
/// parameter. Deterministic in the bytes; named, not written out.
pub uninterp spec fn urlencode_of(s: Seq<u8>) -> Seq<u8>;

/// Relies on urlencoding's `encode_binary`: a deterministic
/// percent-encoding of the bytes, which `urlencode_of` names.
#[verifier::external_body]
fn url_encode(s: &Vec<u8>) -> (r: Vec<u8>)
    ensures
        r@ == urlencode_of(s@),
{
    urlencoding::encode_binary(s).into_owned().into_bytes()
}

/// The procedure name and the endpoint hint (with the encoded return
/// target) for a verification state.
pub fn verification_hint(st: VerifyState, next: &Vec<u8>) -> (r: (Vec<u8>, Vec<u8>))
    ensures
        r.0@ == spec_procedure(st),
        st is Verified ==> r.1@ == urlencode_of(next@),
        !(st is Verified) ==> r.1@ == spec_endpoint_prefix(st) + urlencode_of(next@),
{
    let encoded = url_encode(next);
    let mut p: Vec<u8> = Vec::new();
    let mut e: Vec<u8> = Vec::new();
    match st {
        VerifyState::NeedsEmail => {
            p.push(0x56);
            p.push(0x45);
            p.push(0x52);
            p.push(0x49);
            p.push(0x46);
            p.push(0x59);
            p.push(0x5f);
            p.push(0x45);
            p.push(0x4d);
            p.push(0x41);
            p.push(0x49);
            p.push(0x4c);
            e.push(0x2f);
            e.push(0x76);
            e.push(0x65);
            e.push(0x72);
            e.push(0x69);
            e.push(0x66);
            e.push(0x79);
            e.push(0x2d);
            e.push(0x65);
            e.push(0x6d);
            e.push(0x61);
            e.push(0x69);
            e.push(0x6c);
            e.push(0x3f);
            e.push(0x72);
            e.push(0x65);
            e.push(0x64);
            e.push(0x69);
            e.push(0x72);
            e.push(0x65);
            e.push(0x63);
            e.push(0x74);
            e.push(0x5f);
            e.push(0x74);
            e.push(0x6f);
            e.push(0x3d);
        },
        VerifyState::NeedsMfa => {
            p.push(0x56);
            p.push(0x45);
            p.push(0x52);
            p.push(0x49);
            p.push(0x46);
            p.push(0x59);
            p.push(0x5f);
            p.push(0x4d);
            p.push(0x46);
            p.push(0x41);
            e.push(0x2f);
            e.push(0x76);
            e.push(0x65);
            e.push(0x72);
            e.push(0x69);
            e.push(0x66);
            e.push(0x79);
            e.push(0x2d);
            e.push(0x6d);
            e.push(0x66);
            e.push(0x61);
            e.push(0x3f);
            e.push(0x72);
            e.push(0x65);
            e.push(0x64);
            e.push(0x69);
            e.push(0x72);
            e.push(0x65);
            e.push(0x63);
            e.push(0x74);
            e.push(0x5f);
            e.push(0x74);
            e.push(0x6f);
            e.push(0x3d);
        },
        VerifyState::NeedsConfirm => {
            p.push(0x56);
            p.push(0x45);
            p.push(0x52);
            p.push(0x49);
            p.push(0x46);
            p.push(0x59);
            e.push(0x2f);
            e.push(0x76);
            e.push(0x65);
            e.push(0x72);
            e.push(0x69);
            e.push(0x66);
            e.push(0x79);
            e.push(0x2d);
            e.push(0x65);
            e.push(0x6d);
            e.push(0x61);
            e.push(0x69);
            e.push(0x6c);
            e.push(0x3f);
            e.push(0x72);
            e.push(0x65);
            e.push(0x64);
            e.push(0x69);
            e.push(0x72);
            e.push(0x65);
            e.push(0x63);
            e.push(0x74);
            e.push(0x5f);
            e.push(0x74);
            e.push(0x6f);
            e.push(0x3d);
        },
        VerifyState::Verified => {
            p.push(0x4e);
            p.push(0x4f);
            p.push(0x4e);
            p.push(0x45);
        },
    }
    proof {
        assert(p@ =~= spec_procedure(st));
        if !(st is Verified) {
            assert(e@ =~= spec_endpoint_prefix(st));
        }
    }
    let hint = if e.len() == 0 {
        encoded
    } else {
        crate::bytes::bytes_concat(&e, &encoded)
    };
    proof {
        if st is Verified {
            assert(spec_endpoint_prefix(st).len() == 0);
        }
    }
    (p, hint)
}

} // verus!
