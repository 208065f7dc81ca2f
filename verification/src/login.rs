//! Login: credential verification, the lockout window, and session issue.

use vstd::prelude::*;

use crate::bytes::{bytes_clone, bytes_concat, bytes_eq};
use crate::crypto::{fresh_id, hash_matches, hash_secret, random_token, verify_secret};
use crate::errors::LoginError;
use crate::model::{is_object_id, now_ok, IPInfo, Session, User};
use crate::store::{
    find_by, lemma_find_by_properties, session_id_key, username_key, Store,
};
use crate::token::TOKEN_SECRET_LEN;

verus! {

/// How long a failed-login lockout lasts, in seconds.
pub const LOCKOUT_SECONDS: i64 = 900;

/// Failed attempts that trigger the lockout.
pub const LOCKOUT_THRESHOLD: u32 = 5;

/// How long an issued session lives, in seconds (one month).
pub const SESSION_TTL: i64 = 2629800;

/// Longest accepted username or password.
pub const CREDENTIAL_MAX_LEN: usize = 50;

/// What one login attempt does to the user row it hit.
#[derive(Clone, Copy, Debug, PartialEq, Eq, Structural)]
pub enum LoginOutcome {
    /// The account is locked until the carried timestamp; nothing consumed.
    Locked { until: i64 },
    /// The password failed; one attempt was consumed (and the fifth
    /// consecutive failure raises the lock and resets the counter).
    WrongPassword,
    /// The password verified; the attempt counter was reset.
    Accepted,
}

/// The lockout state machine: an expired lock is
/// cleared before anything else; a live lock rejects without consuming an
/// attempt; a failed password consumes one attempt and the fifth failure
/// locks for [`LOCKOUT_SECONDS`] and resets the counter; a correct
/// password resets the counter.
pub open spec fn spec_login_user_step(u: User, password: Seq<u8>, now: i64) -> (User, LoginOutcome) {
    if u.account_locked && now <= u.locked_until {
        (u, LoginOutcome::Locked { until: u.locked_until })
    } else {
        let u1 = if u.account_locked {
            User { account_locked: false, ..u }
        } else {
            u
        };
        if !hash_matches(u1.password@, password) {
            if u1.login_attempts + 1 >= LOCKOUT_THRESHOLD {
                (
                    User {
                        account_locked: true,
                        locked_until: (now + LOCKOUT_SECONDS) as i64,
                        login_attempts: 0,
                        ..u1
                    },
                    LoginOutcome::WrongPassword,
                )
            } else {
                (User { login_attempts: (u1.login_attempts + 1) as u32, ..u1 }, LoginOutcome::WrongPassword)
            }
        } else {
            (User { login_attempts: 0, ..u1 }, LoginOutcome::Accepted)
        }
    }
}

/// A session row survives a fresh login when it is not an invalid or
/// expired row of the logging-in user.
pub open spec fn keep_login_session(s: Session, uid: Seq<u8>, now: i64) -> bool {
    !(s.user_id@ == uid && (!s.valid || s.expires_on < now))
}

/// Drop the user's invalid and expired sessions, as a fresh login does.
pub open spec fn purge_login_sessions(sessions: Seq<Session>, uid: Seq<u8>, now: i64) -> Seq<
    Session,
>
    decreases sessions.len(),
{
    if sessions.len() == 0 {
        sessions
    } else {
        let rest = purge_login_sessions(sessions.drop_first(), uid, now);
        if keep_login_session(sessions[0], uid, now) {
            seq![sessions[0]] + rest
        } else {
            rest
        }
    }
}

/// Every row the login purge keeps was already present and is kept by
/// [`keep_login_session`].
pub proof fn lemma_purge_login_sessions(sessions: Seq<Session>, uid: Seq<u8>, now: i64)
    ensures
        purge_login_sessions(sessions, uid, now).len() <= sessions.len(),
        forall|k: int|
            0 <= k < purge_login_sessions(sessions, uid, now).len() ==> sessions.contains(
                #[trigger] purge_login_sessions(sessions, uid, now)[k],
            ),
    decreases sessions.len(),
{
    if sessions.len() != 0 {
        lemma_purge_login_sessions(sessions.drop_first(), uid, now);
        let rest = purge_login_sessions(sessions.drop_first(), uid, now);
        assert forall|k: int| 0 <= k < rest.len() implies sessions.contains(rest[k]) by {
            assert(sessions.drop_first().contains(rest[k]));
            let j = choose|j: int|
                0 <= j < sessions.drop_first().len() && sessions.drop_first()[j] == rest[k];
            assert(sessions[j + 1] == rest[k]);
        }
        if keep_login_session(sessions[0], uid, now) {
            let out = seq![sessions[0]] + rest;
            assert(sessions.contains(sessions[0]));
            assert forall|k: int| 0 <= k < out.len() implies sessions.contains(out[k]) by {
                if k == 0 {
                    assert(out[0] == sessions[0]);
                } else {
                    assert(out[k] == rest[k - 1]);
                }
            }
        }
    }
}

/// Law: five consecutive failed login attempts, at any times, lock the
/// account for [`LOCKOUT_SECONDS`] from the fifth failure and reset the
/// attempt counter to zero; a sixth attempt made while the lock still
/// holds — whatever password it carries — is rejected with the unlock
/// timestamp and leaves the user row unchanged, consuming no attempt.
pub proof fn lemma_lockout_after_five_failures(
    u: User,
    password: Seq<u8>,
    t1: i64,
    t2: i64,
    t3: i64,
    t4: i64,
    t5: i64,
    t6: i64,
    sixth_password: Seq<u8>,
)
    requires
        !u.account_locked,
        u.login_attempts == 0,
        !hash_matches(u.password@, password),
        t5 <= i64::MAX - LOCKOUT_SECONDS,
        t6 <= t5 + LOCKOUT_SECONDS,
    ensures
        ({
            let s1 = spec_login_user_step(u, password, t1);
            let s2 = spec_login_user_step(s1.0, password, t2);
            let s3 = spec_login_user_step(s2.0, password, t3);
            let s4 = spec_login_user_step(s3.0, password, t4);
            let s5 = spec_login_user_step(s4.0, password, t5);
            let s6 = spec_login_user_step(s5.0, sixth_password, t6);
            &&& s1.1 is WrongPassword && s2.1 is WrongPassword && s3.1 is WrongPassword
            &&& s4.1 is WrongPassword && s5.1 is WrongPassword
            &&& s5.0.account_locked
            &&& s5.0.locked_until == t5 + LOCKOUT_SECONDS
            &&& s5.0.login_attempts == 0
            &&& s6.1 == LoginOutcome::Locked { until: (t5 + LOCKOUT_SECONDS) as i64 }
            &&& s6.0 == s5.0
        }),
{
}

impl Store {
    /// Remove user `uid`'s invalid and expired sessions.
    fn purge_login_rows(&mut self, uid: &Vec<u8>, now: i64)
        ensures
            final(self).sessions@ == purge_login_sessions(old(self).sessions@, uid@, now),
            final(self).users@ == old(self).users@,
            final(self).oauth_apps@ == old(self).oauth_apps@,
            final(self).oauth_codes@ == old(self).oauth_codes@,
            final(self).oauth_sessions@ == old(self).oauth_sessions@,
    {
        let ghost orig = self.sessions@;
        let n = self.sessions.len();
        let mut kept: Vec<Session> = Vec::new();
        let mut i: usize = 0;
        proof {
            assert(self.sessions@ =~= orig.skip(0));
        }
        while i < n
            invariant
                n == orig.len(),
                0 <= i <= n,
                self.sessions@ == orig.skip(i as int),
                self.users@ == old(self).users@,
                self.oauth_apps@ == old(self).oauth_apps@,
                self.oauth_codes@ == old(self).oauth_codes@,
                self.oauth_sessions@ == old(self).oauth_sessions@,
                purge_login_sessions(orig, uid@, now) == kept@ + purge_login_sessions(
                    orig.skip(i as int),
                    uid@,
                    now,
                ),
            decreases n - i,
        {
            let ghost tail = orig.skip(i as int);
            let row = self.sessions.remove(0);
            proof {
                assert(row == orig[i as int]);
                assert(self.sessions@ =~= orig.skip(i as int + 1));
                assert(tail[0] == orig[i as int]);
                assert(tail.drop_first() =~= orig.skip(i as int + 1));
            }
            let keep = !(bytes_eq(&row.user_id, uid) && (!row.valid || row.expires_on < now));
            proof {
                assert(keep == keep_login_session(orig[i as int], uid@, now));
                if keep {
                    assert(purge_login_sessions(tail, uid@, now) =~= seq![orig[i as int]]
                        + purge_login_sessions(orig.skip(i as int + 1), uid@, now));
                    assert((kept@ + purge_login_sessions(tail, uid@, now)) =~= (kept@.push(
                        orig[i as int],
                    ) + purge_login_sessions(orig.skip(i as int + 1), uid@, now)));
                } else {
                    assert(purge_login_sessions(tail, uid@, now) =~= purge_login_sessions(
                        orig.skip(i as int + 1),
                        uid@,
                        now,
                    ));
                }
            }
            if keep {
                kept.push(row);
            }
            i += 1;
        }
        proof {
            assert(orig.skip(n as int).len() == 0);
            assert(purge_login_sessions(orig, uid@, now) =~= kept@);
        }
        self.sessions = kept;
    }
}

/// What a successful login hands back: the transported token and the
/// indexes of the user and the freshly issued session.
#[derive(Debug)]
pub struct LoginSuccess {
    pub token: Vec<u8>,
    pub user: usize,
    pub session: usize,
}

/// Issue a session for a user: a fresh id-and-secret pair whose secret
/// is stored only as a salted hash, `valid == false` until the
/// verification chain completes, and the origin metadata recorded as
/// observed at issue time.
pub fn issue_session(store: &mut Store, ui: usize, ip_info: IPInfo, ttl: i64, now: i64) -> (r:
    Result<LoginSuccess, ()>)
    requires
        old(store).wf(),
        ui < old(store).users@.len(),
        now_ok(now),
        0 <= ttl <= crate::model::MAX_LIFETIME,
    ensures
        final(store).wf(),
        final(store).users@ == old(store).users@,
        final(store).oauth_apps@ == old(store).oauth_apps@,
        final(store).oauth_codes@ == old(store).oauth_codes@,
        final(store).oauth_sessions@ == old(store).oauth_sessions@,
        r is Err ==> final(store).sessions@ == old(store).sessions@,
        r matches Ok(s) ==> {
            let sess = final(store).sessions@.last();
            &&& final(store).sessions@ == old(store).sessions@.push(sess)
            &&& find_by(old(store).sessions@, session_id_key(), sess.id@) is None
            &&& s.user == ui
            &&& s.session == old(store).sessions@.len()
            &&& sess.user_id@ == old(store).users@[ui as int].id@
            &&& sess.created_on == now
            &&& sess.expires_on == now + ttl
            &&& sess.valid == false
            &&& sess.challenge_code is None
            &&& sess.loc == ip_info
            &&& is_object_id(sess.id@)
            &&& s.token@.len() == 88
            &&& s.token@.subrange(0, 24) == sess.id@
            &&& s.token@.subrange(24, 88).len() == 64
            &&& hash_matches(sess.token@, s.token@.subrange(24, 88))
        },
{
    let sid = fresh_id();
    if store.session_idx_by_id(&sid).is_some() {
        return Err(());
    }
    let secret = random_token(TOKEN_SECRET_LEN);
    let token_hash = hash_secret(&secret);
    let sess = Session {
        id: sid,
        token: token_hash,
        created_on: now,
        expires_on: now + ttl,
        loc: ip_info,
        valid: false,
        challenge_code: None,
        user_id: bytes_clone(&store.users[ui].id),
    };
    let token = bytes_concat(&sess.id, &secret);
    let si = store.sessions.len();
    store.sessions.push(sess);
    proof {
        assert(store.sessions@.last() == store.sessions@[si as int]);
        assert(token@.subrange(0, 24) =~= store.sessions@.last().id@);
        assert(token@.subrange(24, 88) =~= secret@);
        assert forall|k: int|
            0 <= k < store.sessions@.len() implies (#[trigger] store.sessions@[k]).wf() by {
            if k < si as int {
                assert(store.sessions@[k] == old(store).sessions@[k]);
            }
        }
    }
    Ok(LoginSuccess { token, user: ui, session: si })
}

/// Log a user in.
///
/// Issues a session with `valid == false`: for every pair of a known
/// username and its correct password, on an account that is not locked,
/// the call succeeds (whenever the freshly drawn row id is unused;
/// a collision reports `Internal`) and the remaining verification steps
/// still stand between the new session and privileged operations.
pub fn try_login(
    store: &mut Store,
    username: &Vec<u8>,
    password: &Vec<u8>,
    ip_info: IPInfo,
    now: i64,
) -> (r: Result<LoginSuccess, LoginError>)
    requires
        old(store).wf(),
        now_ok(now),
    ensures
        final(store).wf(),
        final(store).oauth_apps@ == old(store).oauth_apps@,
        final(store).oauth_codes@ == old(store).oauth_codes@,
        final(store).oauth_sessions@ == old(store).oauth_sessions@,
        ({
            let bad_len = username@.len() == 0 || username@.len() > 50 || password@.len() > 50;
            let found = find_by(old(store).users@, username_key(), username@);
            &&& (r == Err::<LoginSuccess, LoginError>(LoginError::BadLength) <==> bad_len)
            &&& (!bad_len && found is None ==> r == Err::<LoginSuccess, LoginError>(
                LoginError::BadCredentials,
            ))
            &&& (bad_len || found is None ==> final(store).users@ == old(store).users@
                && final(store).sessions@ == old(store).sessions@)
            &&& (!bad_len ==> (found matches Some(ui) ==> {
                let u = old(store).users@[ui];
                let stepped = spec_login_user_step(u, password@, now);
                &&& final(store).users@ == old(store).users@.update(ui, stepped.0)
                &&& (stepped.1 matches LoginOutcome::Locked { until } ==> r == Err::<
                    LoginSuccess,
                    LoginError,
                >(LoginError::Locked { until }) && final(store).sessions@ == old(store).sessions@)
                &&& (stepped.1 is WrongPassword ==> r == Err::<LoginSuccess, LoginError>(
                    LoginError::BadCredentials,
                ) && final(store).sessions@ == old(store).sessions@)
                &&& (stepped.1 is Accepted ==> {
                    let purged = purge_login_sessions(old(store).sessions@, u.id@, now);
                    &&& (r is Err ==> r == Err::<LoginSuccess, LoginError>(LoginError::Internal)
                        && final(store).sessions@ == purged)
                    &&& (r matches Ok(s) ==> {
                        let sess = final(store).sessions@.last();
                        &&& final(store).sessions@ == purged.push(sess)
                        &&& find_by(purged, session_id_key(), sess.id@) is None
                        &&& s.user == ui
                        &&& s.session == purged.len()
                        &&& sess.user_id@ == u.id@
                        &&& sess.created_on == now
                        &&& sess.expires_on == now + SESSION_TTL
                        &&& sess.valid == false
                        &&& sess.challenge_code is None
                        &&& sess.loc == ip_info
                        &&& is_object_id(sess.id@)
                        &&& s.token@.len() == 88
                        &&& s.token@.subrange(0, 24) == sess.id@
                        &&& s.token@.subrange(24, 88).len() == 64
                        &&& hash_matches(sess.token@, s.token@.subrange(24, 88))
                    })
                })
                &&& (stepped.1 is Accepted <==> !(u.account_locked && now <= u.locked_until)
                    && hash_matches(u.password@, password@))
            }))
        }),
{
    if username.len() == 0 || username.len() > CREDENTIAL_MAX_LEN || password.len()
        > CREDENTIAL_MAX_LEN {
        return Err(LoginError::BadLength);
    }
    let found = store.user_idx_by_username(username);
    match found {
        None => Err(LoginError::BadCredentials),
        Some(ui) => {
            proof {
                lemma_find_by_properties(store.users@, username_key(), username@);
            }
            let mut u = store.users.remove(ui);
            let ghost u0 = u;
            if u.account_locked && now <= u.locked_until {
                let until = u.locked_until;
                store.users.insert(ui, u);
                proof {
                    assert(store.users@ =~= old(store).users@.update(
                        ui as int,
                        spec_login_user_step(u0, password@, now).0,
                    ));
                }
                return Err(LoginError::Locked { until });
            }
            if u.account_locked {
                u.account_locked = false;
            }
            let pw_ok = verify_secret(password, &u.password);
            if !pw_ok {
                if u.login_attempts + 1 >= LOCKOUT_THRESHOLD {
                    u.account_locked = true;
                    u.locked_until = now + LOCKOUT_SECONDS;
                    u.login_attempts = 0;
                } else {
                    u.login_attempts = u.login_attempts + 1;
                }
                store.users.insert(ui, u);
                proof {
                    assert(store.users@ =~= old(store).users@.update(
                        ui as int,
                        spec_login_user_step(u0, password@, now).0,
                    ));
                }
                return Err(LoginError::BadCredentials);
            }
            u.login_attempts = 0;
            let uid = bytes_clone(&u.id);
            store.users.insert(ui, u);
            proof {
                assert(store.users@ =~= old(store).users@.update(
                    ui as int,
                    spec_login_user_step(u0, password@, now).0,
                ));
                assert forall|k: int| 0 <= k < store.users@.len() implies (#[trigger] store
                    .users@[k]).wf() by {
                    if k != ui as int {
                        assert(store.users@[k] == old(store).users@[k]);
                    }
                }
            }
            store.purge_login_rows(&uid, now);
            proof {
                lemma_purge_login_sessions(old(store).sessions@, uid@, now);
                assert forall|k: int| 0 <= k < store.sessions@.len() implies (#[trigger] store
                    .sessions@[k]).wf() by {
                    assert(old(store).sessions@.contains(store.sessions@[k]));
                    let j = choose|j: int|
                        0 <= j < old(store).sessions@.len() && old(store).sessions@[j]
                            == store.sessions@[k];
                    assert(old(store).sessions@[j].wf());
                }
            }
            let sid = fresh_id();
            if store.session_idx_by_id(&sid).is_some() {
                return Err(LoginError::Internal);
            }
            let secret = random_token(TOKEN_SECRET_LEN);
            let token_hash = hash_secret(&secret);
            let sess = Session {
                id: sid,
                token: token_hash,
                created_on: now,
                expires_on: now + SESSION_TTL,
                loc: ip_info,
                valid: false,
                challenge_code: None,
                user_id: uid,
            };
            let token = bytes_concat(&sess.id, &secret);
            let si = store.sessions.len();
            store.sessions.push(sess);
            proof {
                assert(store.sessions@.last() == store.sessions@[si as int]);
                assert(token@.subrange(0, 24) =~= store.sessions@.last().id@);
                assert(token@.subrange(24, 88) =~= secret@);
            }
            Ok(LoginSuccess { token, user: ui, session: si })
        },
    }
}

} // verus!
