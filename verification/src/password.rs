//! Password changes: authenticated change, reset-request, and setting a
//! new password from a mailed reset token.

use vstd::prelude::*;

use crate::bytes::{bytes_clone, bytes_concat};
use crate::crypto::{hash_matches, hash_secret, random_token, verify_secret};
use crate::errors::{ChangePasswordError, ResetPasswordError, ResolveError};
use crate::login::CREDENTIAL_MAX_LEN;
use crate::model::{now_ok, User};
use crate::signup::{email_valid, spec_email_valid};
use crate::store::{email_key, find_by, lemma_find_by_properties, user_id_key, Store};
use crate::token::{
    identify, parse_token, spec_identify, spec_token_id, spec_token_secret, spec_token_wf,
    spec_verify_state, TOKEN_SECRET_LEN,
};

verus! {

/// How long a mailed reset token stays usable, in seconds.
pub const RESET_TOKEN_TTL: i64 = 900;

/// The cooldown between password changes, in seconds.
pub const PASSWORD_COOLDOWN: i64 = 900;

/// Result of resolving a reset token in the store's user rows.
pub struct ResetResolve {
    pub users: Seq<User>,
    pub result: Result<int, ResolveError>,
}

/// Resolving a reset token: the id half names the user; the user must
/// hold an outstanding reset hash that is younger than the window (an
/// aged one is cleared as a side effect) and that the secret half
/// verifies against.
pub open spec fn spec_identify_reset(users: Seq<User>, token: Seq<u8>, now: i64) -> ResetResolve {
    if !spec_token_wf(token) {
        ResetResolve { users, result: Err(ResolveError::Malformed) }
    } else {
        let uid = spec_token_id(token);
        let secret = spec_token_secret(token);
        match find_by(users, user_id_key(), uid) {
            None => ResetResolve { users, result: Err(ResolveError::NotFound) },
            Some(ui) => {
                let u = users[ui];
                match u.password_change_token {
                    None => ResetResolve { users, result: Err(ResolveError::NotFound) },
                    Some(h) => {
                        if u.password_change_token_generated + RESET_TOKEN_TTL < now {
                            ResetResolve {
                                users: users.update(
                                    ui,
                                    User { password_change_token: None, ..u },
                                ),
                                result: Err(ResolveError::Expired),
                            }
                        } else if !hash_matches(h@, secret) {
                            ResetResolve { users, result: Err(ResolveError::SecretMismatch) }
                        } else {
                            ResetResolve { users, result: Ok(ui) }
                        }
                    },
                }
            },
        }
    }
}

/// Resolve a mailed reset token into the owning user.
pub fn identify_reset(store: &mut Store, token: &Vec<u8>, now: i64) -> (r: Result<
    usize,
    ResolveError,
>)
    requires
        old(store).wf(),
    ensures
        final(store).wf(),
        final(store).sessions@ == old(store).sessions@,
        final(store).oauth_apps@ == old(store).oauth_apps@,
        final(store).oauth_codes@ == old(store).oauth_codes@,
        final(store).oauth_sessions@ == old(store).oauth_sessions@,
        ({
            let o = spec_identify_reset(old(store).users@, token@, now);
            &&& final(store).users@ == o.users
            &&& match r {
                Ok(ui) => o.result == Ok::<int, ResolveError>(ui as int)
                    && ui < final(store).users@.len(),
                Err(e) => o.result == Err::<int, ResolveError>(e),
            }
        }),
{
    let (uid, secret) = match parse_token(token) {
        None => {
            return Err(ResolveError::Malformed);
        },
        Some(p) => p,
    };
    let ui = match store.user_idx_by_id(&uid) {
        None => {
            proof {
                lemma_find_by_properties(store.users@, user_id_key(), uid@);
            }
            return Err(ResolveError::NotFound);
        },
        Some(ui) => ui,
    };
    proof {
        lemma_find_by_properties(store.users@, user_id_key(), uid@);
    }
    let stored = match &store.users[ui].password_change_token {
        None => {
            return Err(ResolveError::NotFound);
        },
        Some(h) => bytes_clone(h),
    };
    if store.users[ui].password_change_token_generated + RESET_TOKEN_TTL < now {
        let mut u = store.users.remove(ui);
        u.password_change_token = None;
        store.users.insert(ui, u);
        proof {
            assert(store.users@ =~= old(store).users@.update(
                ui as int,
                store.users@[ui as int],
            ));
            assert forall|k: int|
                0 <= k < store.users@.len() implies (#[trigger] store.users@[k]).wf() by {
                if k != ui as int {
                    assert(store.users@[k] == old(store).users@[k]);
                }
            }
            assert(store.users@[ui as int] == User {
                password_change_token: None,
                ..old(store).users@[ui as int]
            });
        }
        return Err(ResolveError::Expired);
    }
    if !verify_secret(&secret, &stored) {
        return Err(ResolveError::SecretMismatch);
    }
    Ok(ui)
}

/// What requesting a reset reports. An address with no account is
/// acknowledged exactly like one with an account, so that the request
/// cannot be used to probe which addresses exist; the token to mail is
/// produced only internally.
#[derive(Debug)]
pub enum ResetRequest {
    /// The address does not match the accepted grammar.
    BadEmail,
    /// Acknowledged; no account holds the address, nothing was changed.
    NoAccount,
    /// Acknowledged; the token below is to be mailed to the user.
    Sent { token: Vec<u8>, user: usize },
}

/// Request a password reset for an email address: stores the salted hash
/// of a fresh token under the owning user and hands the raw token back
/// for mailing.
pub fn try_reset_password(store: &mut Store, email: &Vec<u8>, now: i64) -> (r: ResetRequest)
    requires
        old(store).wf(),
        now_ok(now),
    ensures
        final(store).wf(),
        final(store).sessions@ == old(store).sessions@,
        final(store).oauth_apps@ == old(store).oauth_apps@,
        final(store).oauth_codes@ == old(store).oauth_codes@,
        final(store).oauth_sessions@ == old(store).oauth_sessions@,
        (r is BadEmail <==> !spec_email_valid(email@)),
        (r is NoAccount <==> spec_email_valid(email@) && find_by(
            old(store).users@,
            email_key(),
            email@,
        ) is None),
        (r is BadEmail || r is NoAccount ==> final(store).users@ == old(store).users@),
        (r matches ResetRequest::Sent { token, user } ==> {
            let found = find_by(old(store).users@, email_key(), email@);
            &&& found == Some(user as int)
            &&& user < final(store).users@.len()
            &&& ({
                let u0 = old(store).users@[user as int];
                let u1 = final(store).users@[user as int];
                &&& final(store).users@ == old(store).users@.update(user as int, u1)
                &&& u1 == User {
                    password_change_token: u1.password_change_token,
                    password_change_token_generated: now,
                    ..u0
                }
                &&& u1.password_change_token matches Some(h) && hash_matches(
                    h@,
                    token@.subrange(24, 88),
                )
                &&& token@.len() == 88
                &&& token@.subrange(0, 24) == u0.id@
            })
        }),
{
    if !email_valid(email) {
        return ResetRequest::BadEmail;
    }
    let ui = match store.user_idx_by_email(email) {
        None => {
            return ResetRequest::NoAccount;
        },
        Some(ui) => ui,
    };
    proof {
        lemma_find_by_properties(store.users@, email_key(), email@);
    }
    let secret = random_token(TOKEN_SECRET_LEN);
    let hash = hash_secret(&secret);
    let mut u = store.users.remove(ui);
    let token = bytes_concat(&u.id, &secret);
    u.password_change_token = Some(hash);
    u.password_change_token_generated = now;
    store.users.insert(ui, u);
    proof {
        assert(store.users@ =~= old(store).users@.update(ui as int, store.users@[ui as int]));
        assert forall|k: int| 0 <= k < store.users@.len() implies (#[trigger] store.users@[k]).wf()
            by {
            if k != ui as int {
                assert(store.users@[k] == old(store).users@[k]);
            }
        }
        assert(token@.subrange(0, 24) =~= old(store).users@[ui as int].id@);
        assert(token@.subrange(24, 88) =~= secret@);
    }
    ResetRequest::Sent { token, user: ui }
}

/// Change a password over an authenticated, fully verified session.
pub fn try_change_password(
    store: &mut Store,
    token: &Vec<u8>,
    new_password: &Vec<u8>,
    old_password: &Vec<u8>,
    now: i64,
    observed_ip: &Vec<u8>,
    bind_ip: bool,
) -> (r: Result<(), ChangePasswordError>)
    requires
        old(store).wf(),
        now_ok(now),
    ensures
        final(store).wf(),
        final(store).oauth_apps@ == old(store).oauth_apps@,
        final(store).oauth_codes@ == old(store).oauth_codes@,
        final(store).oauth_sessions@ == old(store).oauth_sessions@,
        ({
            let bad_len = old_password@.len() > 50 || new_password@.len() > 50;
            let o = spec_identify(
                old(store).users@,
                old(store).sessions@,
                token@,
                now,
                observed_ip@,
                bind_ip,
            );
            &&& (r == Err::<(), ChangePasswordError>(ChangePasswordError::BadLength) <==>
                bad_len)
            &&& (bad_len ==> final(store).users@ == old(store).users@ && final(store).sessions@
                == old(store).sessions@)
            &&& (!bad_len ==> {
                &&& final(store).sessions@ == o.sessions
                &&& match o.result {
                    Err(_) => r == Err::<(), ChangePasswordError>(ChangePasswordError::BadToken)
                        && final(store).users@ == old(store).users@,
                    Ok((ui, si)) => {
                        let u = old(store).users@[ui];
                        let s = old(store).sessions@[si];
                        if !(spec_verify_state(u, s) is Verified) {
                            r == Err::<(), ChangePasswordError>(ChangePasswordError::BadToken)
                                && final(store).users@ == old(store).users@
                        } else if u.last_password_change + PASSWORD_COOLDOWN > now {
                            r == Err::<(), ChangePasswordError>(ChangePasswordError::RateLimited)
                                && final(store).users@ == old(store).users@
                        } else if !hash_matches(u.password@, old_password@) {
                            r == Err::<(), ChangePasswordError>(
                                ChangePasswordError::WrongPassword,
                            ) && final(store).users@ == old(store).users@
                        } else {
                            let u1 = final(store).users@[ui];
                            &&& r is Ok
                            &&& final(store).users@ == old(store).users@.update(ui, u1)
                            &&& u1 == User {
                                password: u1.password,
                                last_password_change: now,
                                ..u
                            }
                            &&& hash_matches(u1.password@, new_password@)
                        }
                    },
                }
            })
        }),
{
    if old_password.len() > CREDENTIAL_MAX_LEN || new_password.len() > CREDENTIAL_MAX_LEN {
        return Err(ChangePasswordError::BadLength);
    }
    let (ui, si) = match identify(store, token, now, observed_ip, bind_ip) {
        Err(_) => {
            return Err(ChangePasswordError::BadToken);
        },
        Ok(p) => p,
    };
    let st = crate::token::verified(&store.users[ui], &store.sessions[si]);
    match st {
        crate::errors::VerifyState::Verified => {},
        _ => {
            return Err(ChangePasswordError::BadToken);
        },
    }
    if store.users[ui].last_password_change + PASSWORD_COOLDOWN > now {
        return Err(ChangePasswordError::RateLimited);
    }
    if !verify_secret(old_password, &store.users[ui].password) {
        return Err(ChangePasswordError::WrongPassword);
    }
    let hash = hash_secret(new_password);
    let mut u = store.users.remove(ui);
    u.password = hash;
    u.last_password_change = now;
    store.users.insert(ui, u);
    proof {
        assert(store.users@ =~= old(store).users@.update(ui as int, store.users@[ui as int]));
        assert forall|k: int| 0 <= k < store.users@.len() implies (#[trigger] store.users@[k]).wf()
            by {
            if k != ui as int {
                assert(store.users@[k] == old(store).users@[k]);
            }
        }
    }
    Ok(())
}

/// Set a new password from a mailed reset token, without a session.
pub fn try_change_password_without_account(
    store: &mut Store,
    token: &Vec<u8>,
    password: &Vec<u8>,
    now: i64,
) -> (r: Result<(), ResetPasswordError>)
    requires
        old(store).wf(),
        now_ok(now),
    ensures
        final(store).wf(),
        final(store).sessions@ == old(store).sessions@,
        final(store).oauth_apps@ == old(store).oauth_apps@,
        final(store).oauth_codes@ == old(store).oauth_codes@,
        final(store).oauth_sessions@ == old(store).oauth_sessions@,
        ({
            let bad_len = password@.len() > 50;
            let o = spec_identify_reset(old(store).users@, token@, now);
            &&& (r == Err::<(), ResetPasswordError>(ResetPasswordError::BadLength) <==> bad_len)
            &&& (bad_len ==> final(store).users@ == old(store).users@)
            &&& (!bad_len ==> {
                match o.result {
                    Err(_) => r == Err::<(), ResetPasswordError>(ResetPasswordError::BadToken)
                        && final(store).users@ == o.users,
                    Ok(ui) => {
                        let u = old(store).users@[ui];
                        if u.last_password_change + PASSWORD_COOLDOWN > now {
                            r == Err::<(), ResetPasswordError>(ResetPasswordError::RateLimited)
                                && final(store).users@ == old(store).users@
                        } else {
                            let u1 = final(store).users@[ui];
                            &&& r is Ok
                            &&& final(store).users@ == old(store).users@.update(ui, u1)
                            &&& u1 == User {
                                password: u1.password,
                                last_password_change: now,
                                ..u
                            }
                            &&& hash_matches(u1.password@, password@)
                        }
                    },
                }
            })
        }),
{
    if password.len() > CREDENTIAL_MAX_LEN {
        return Err(ResetPasswordError::BadLength);
    }
    let ui = match identify_reset(store, token, now) {
        Err(_) => {
            return Err(ResetPasswordError::BadToken);
        },
        Ok(ui) => ui,
    };
    if store.users[ui].last_password_change + PASSWORD_COOLDOWN > now {
        return Err(ResetPasswordError::RateLimited);
    }
    let hash = hash_secret(password);
    let mut u = store.users.remove(ui);
    u.password = hash;
    u.last_password_change = now;
    store.users.insert(ui, u);
    proof {
        assert(store.users@ =~= old(store).users@.update(ui as int, store.users@[ui as int]));
        assert forall|k: int| 0 <= k < store.users@.len() implies (#[trigger] store.users@[k]).wf()
            by {
            if k != ui as int {
                assert(store.users@[k] == old(store).users@[k]);
            }
        }
    }
    Ok(())
}

} // verus!
