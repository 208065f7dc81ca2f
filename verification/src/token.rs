//! Opaque tokens and their resolution.
//!
//! Every issued credential travels as `id || secret`: 24 lowercase hex bytes
//! that are the row's lookup key, then 64 random bytes whose salted hash is
//! the only thing stored. Resolving a token walks the verification state
//! machine and lazily purges a user's expired sessions.

use vstd::prelude::*;

use crate::bytes::{bytes_eq, bytes_range};
use crate::crypto::{hash_matches, lower_hex_byte, verify_secret};
use crate::errors::{ResolveError, VerifyState};
use crate::model::{is_hex, is_lower_hex, is_object_id, ts_ok, Session, User};
use crate::store::{
    find_by, lemma_find_by_properties, lemma_find_by_skip, session_id_key, Store, user_id_key,
};

verus! {

/// Length of the id half of a token.
pub const TOKEN_ID_LEN: usize = 24;

/// Length of the secret half of a token.
pub const TOKEN_SECRET_LEN: usize = 64;

/// Length of a whole transported token.
pub const TOKEN_LEN: usize = 88;

/// Uppercase hex folded to lowercase; everything else unchanged.
pub open spec fn lower_hex_of(b: u8) -> u8 {
    if 0x41 <= b <= 0x46 {
        (b + 0x20) as u8
    } else {
        b
    }
}

/// A transported token is well-formed when it has exactly the two halves
/// and the id half is hex (either case).
pub open spec fn spec_token_wf(t: Seq<u8>) -> bool {
    t.len() == 88 && (forall|i: int| 0 <= i < 24 ==> is_hex(#[trigger] t[i]))
}

/// The id half, folded to lowercase.
pub open spec fn spec_token_id(t: Seq<u8>) -> Seq<u8> {
    t.subrange(0, 24).map_values(|b: u8| lower_hex_of(b))
}

/// The secret half.
pub open spec fn spec_token_secret(t: Seq<u8>) -> Seq<u8> {
    t.subrange(24, 88)
}

/// Split a token into its id (lowercased) and secret halves, rejecting
/// anything that is not exactly `24 hex bytes || 64 bytes`.
pub fn parse_token(t: &Vec<u8>) -> (r: Option<(Vec<u8>, Vec<u8>)>)
    ensures
        r is Some <==> spec_token_wf(t@),
        r matches Some((id, secret)) ==> {
            &&& id@ == spec_token_id(t@)
            &&& secret@ == spec_token_secret(t@)
            &&& is_object_id(id@)
            &&& secret@.len() == 64
        },
{
    if t.len() != TOKEN_LEN {
        return None;
    }
    let mut id: Vec<u8> = Vec::new();
    let mut i: usize = 0;
    while i < TOKEN_ID_LEN
        invariant
            0 <= i <= 24,
            t@.len() == 88,
            id@.len() == i,
            forall|j: int| 0 <= j < i ==> is_hex(#[trigger] t@[j]),
            forall|j: int| 0 <= j < i ==> #[trigger] id@[j] == lower_hex_of(t@[j]),
        decreases 24 - i,
    {
        let b = t[i];
        let lower = if 0x41 <= b && b <= 0x46 {
            b + 0x20
        } else {
            b
        };
        if !lower_hex_byte(lower) {
            return None;
        }
        id.push(lower);
        i += 1;
    }
    let secret = bytes_range(t, TOKEN_ID_LEN, TOKEN_LEN);
    proof {
        assert(id@ =~= spec_token_id(t@));
    }
    Some((id, secret))
}

/// A bare client or row id as callers send it: 24 hex bytes of either
/// case, folded to lowercase; anything else is rejected.
pub open spec fn spec_parse_id(t: Seq<u8>) -> Option<Seq<u8>> {
    if t.len() == 24 && (forall|i: int| 0 <= i < t.len() ==> is_hex(#[trigger] t[i])) {
        Some(t.map_values(|b: u8| lower_hex_of(b)))
    } else {
        None
    }
}

/// Parse a bare id, folding hex to lowercase.
pub fn parse_id(t: &Vec<u8>) -> (r: Option<Vec<u8>>)
    ensures
        r is Some <==> spec_parse_id(t@) is Some,
        r matches Some(id) ==> spec_parse_id(t@) == Some(id@) && is_object_id(id@),
{
    if t.len() != TOKEN_ID_LEN {
        return None;
    }
    let mut id: Vec<u8> = Vec::new();
    let mut i: usize = 0;
    while i < TOKEN_ID_LEN
        invariant
            0 <= i <= 24,
            t@.len() == 24,
            id@.len() == i,
            forall|j: int| 0 <= j < i ==> is_hex(#[trigger] t@[j]),
            forall|j: int| 0 <= j < i ==> #[trigger] id@[j] == lower_hex_of(t@[j]),
        decreases 24 - i,
    {
        let b = t[i];
        let lower = if 0x41 <= b && b <= 0x46 {
            b + 0x20
        } else {
            b
        };
        if !lower_hex_byte(lower) {
            return None;
        }
        id.push(lower);
        i += 1;
    }
    proof {
        assert(id@ =~= t@.map_values(|b: u8| lower_hex_of(b)));
    }
    Some(id)
}

/// A session survives the purge when it is not an expired row of `uid`.
pub open spec fn keep_session(s: Session, uid: Seq<u8>, now: i64) -> bool {
    !(s.user_id@ == uid && s.expires_on < now)
}

/// Keep only the sessions that are not expired rows of user `uid`.
pub open spec fn purge_user_expired(sessions: Seq<Session>, uid: Seq<u8>, now: i64) -> Seq<Session>
    decreases sessions.len(),
{
    if sessions.len() == 0 {
        sessions
    } else {
        let rest = purge_user_expired(sessions.drop_first(), uid, now);
        if keep_session(sessions[0], uid, now) {
            seq![sessions[0]] + rest
        } else {
            rest
        }
    }
}

/// The purge keeps exactly the rows that [`keep_session`] keeps, in order;
/// in particular every kept row was already present.
pub proof fn lemma_purge_user_expired(sessions: Seq<Session>, uid: Seq<u8>, now: i64)
    ensures
        purge_user_expired(sessions, uid, now).len() <= sessions.len(),
        forall|k: int|
            0 <= k < purge_user_expired(sessions, uid, now).len() ==> sessions.contains(
                #[trigger] purge_user_expired(sessions, uid, now)[k],
            ),
        forall|k: int|
            0 <= k < purge_user_expired(sessions, uid, now).len() ==> keep_session(
                #[trigger] purge_user_expired(sessions, uid, now)[k],
                uid,
                now,
            ),
    decreases sessions.len(),
{
    if sessions.len() != 0 {
        lemma_purge_user_expired(sessions.drop_first(), uid, now);
        let rest = purge_user_expired(sessions.drop_first(), uid, now);
        assert forall|k: int| 0 <= k < rest.len() implies sessions.contains(rest[k]) by {
            assert(sessions.drop_first().contains(rest[k]));
            let j = choose|j: int|
                0 <= j < sessions.drop_first().len() && sessions.drop_first()[j] == rest[k];
            assert(sessions[j + 1] == rest[k]);
        }
        if keep_session(sessions[0], uid, now) {
            let out = seq![sessions[0]] + rest;
            assert(sessions.contains(sessions[0]));
            assert forall|k: int| 0 <= k < out.len() implies sessions.contains(out[k])
                && keep_session(out[k], uid, now) by {
                if k == 0 {
                    assert(out[0] == sessions[0]);
                } else {
                    assert(out[k] == rest[k - 1]);
                }
            }
        }
    }
}

/// Result of resolving a session token: the sessions that remain and
/// either the (user, session) indexes or the internal failure cause.
pub struct ResolveOutcome {
    pub sessions: Seq<Session>,
    pub result: Result<(int, int), ResolveError>,
}

/// The whole resolution, as a function of the store's rows and the inputs.
/// Failure order: malformed token, no row, expired (purging the owner's
/// expired rows), address mismatch when binding is on, secret mismatch,
/// then a missing owning user.
pub open spec fn spec_identify(
    users: Seq<User>,
    sessions: Seq<Session>,
    token: Seq<u8>,
    now: i64,
    ip: Seq<u8>,
    bind_ip: bool,
) -> ResolveOutcome {
    if !spec_token_wf(token) {
        ResolveOutcome { sessions, result: Err(ResolveError::Malformed) }
    } else {
        let tid = spec_token_id(token);
        let secret = spec_token_secret(token);
        match find_by(sessions, session_id_key(), tid) {
            None => ResolveOutcome { sessions, result: Err(ResolveError::NotFound) },
            Some(si) => {
                let s = sessions[si];
                if s.expires_on < now {
                    ResolveOutcome {
                        sessions: purge_user_expired(sessions, s.user_id@, now),
                        result: Err(ResolveError::Expired),
                    }
                } else if bind_ip && s.loc.ip@ != ip {
                    ResolveOutcome { sessions, result: Err(ResolveError::IpMismatch) }
                } else if !hash_matches(s.token@, secret) {
                    ResolveOutcome { sessions, result: Err(ResolveError::SecretMismatch) }
                } else {
                    match find_by(users, user_id_key(), s.user_id@) {
                        None => ResolveOutcome { sessions, result: Err(ResolveError::NotFound) },
                        Some(ui) => ResolveOutcome { sessions, result: Ok((ui, si)) },
                    }
                }
            },
        }
    }
}

impl Store {
    /// Remove user `uid`'s expired sessions.
    fn purge_expired_sessions(&mut self, uid: &Vec<u8>, now: i64)
        ensures
            final(self).sessions@ == purge_user_expired(old(self).sessions@, uid@, now),
            final(self).users@ == old(self).users@,
            final(self).oauth_apps@ == old(self).oauth_apps@,
            final(self).oauth_codes@ == old(self).oauth_codes@,
            final(self).oauth_sessions@ == old(self).oauth_sessions@,
    {
        let ghost orig = self.sessions@;
        let n = self.sessions.len();
        let mut kept: Vec<Session> = Vec::new();
        let mut i: usize = 0;
        proof {
            assert(self.sessions@ =~= orig.skip(0));
        }
        while i < n
            invariant
                n == orig.len(),
                0 <= i <= n,
                self.sessions@ == orig.skip(i as int),
                self.users@ == old(self).users@,
                self.oauth_apps@ == old(self).oauth_apps@,
                self.oauth_codes@ == old(self).oauth_codes@,
                self.oauth_sessions@ == old(self).oauth_sessions@,
                purge_user_expired(orig, uid@, now) == kept@ + purge_user_expired(
                    orig.skip(i as int),
                    uid@,
                    now,
                ),
            decreases n - i,
        {
            let ghost tail = orig.skip(i as int);
            let row = self.sessions.remove(0);
            proof {
                assert(row == orig[i as int]);
                assert(self.sessions@ =~= orig.skip(i as int + 1));
                assert(tail[0] == orig[i as int]);
                assert(tail.drop_first() =~= orig.skip(i as int + 1));
            }
            let keep = !(bytes_eq(&row.user_id, uid) && row.expires_on < now);
            proof {
                assert(keep == keep_session(orig[i as int], uid@, now));
                if keep {
                    assert(purge_user_expired(tail, uid@, now) =~= seq![orig[i as int]]
                        + purge_user_expired(orig.skip(i as int + 1), uid@, now));
                    assert((kept@ + purge_user_expired(tail, uid@, now)) =~= (kept@.push(
                        orig[i as int],
                    ) + purge_user_expired(orig.skip(i as int + 1), uid@, now)));
                } else {
                    assert(purge_user_expired(tail, uid@, now) =~= purge_user_expired(
                        orig.skip(i as int + 1),
                        uid@,
                        now,
                    ));
                }
            }
            if keep {
                kept.push(row);
            }
            i += 1;
        }
        proof {
            assert(orig.skip(n as int).len() == 0);
            assert(purge_user_expired(orig, uid@, now) =~= kept@);
        }
        self.sessions = kept;
    }
}

/// Resolve a session token into `(user index, session index)`.
///
/// The outcome — including which internal error is reported and which rows
/// survive — is exactly [`spec_identify`] of the inputs. Resolving an
/// expired token purges the owning user's expired sessions; every other
/// path leaves the store unchanged.
pub fn identify(
    store: &mut Store,
    token: &Vec<u8>,
    now: i64,
    observed_ip: &Vec<u8>,
    bind_ip: bool,
) -> (r: Result<(usize, usize), ResolveError>)
    requires
        old(store).wf(),
    ensures
        final(store).wf(),
        final(store).users@ == old(store).users@,
        final(store).oauth_apps@ == old(store).oauth_apps@,
        final(store).oauth_codes@ == old(store).oauth_codes@,
        final(store).oauth_sessions@ == old(store).oauth_sessions@,
        ({
            let o = spec_identify(
                old(store).users@,
                old(store).sessions@,
                token@,
                now,
                observed_ip@,
                bind_ip,
            );
            &&& final(store).sessions@ == o.sessions
            &&& match r {
                Ok((ui, si)) => o.result == Ok::<(int, int), ResolveError>(
                    (ui as int, si as int),
                ),
                Err(e) => o.result == Err::<(int, int), ResolveError>(e),
            }
        }),
        r matches Ok((ui, si)) ==> {
            &&& ui < final(store).users@.len()
            &&& si < final(store).sessions@.len()
            &&& final(store).sessions@ == old(store).sessions@
            &&& final(store).sessions@[si as int].user_id@ == final(store).users@[ui as int].id@
            &&& final(store).sessions@[si as int].id@ == spec_token_id(token@)
            &&& hash_matches(final(store).sessions@[si as int].token@, spec_token_secret(token@))
            &&& now <= final(store).sessions@[si as int].expires_on
        },
{
    let parsed = parse_token(token);
    match parsed {
        None => Err(ResolveError::Malformed),
        Some((tid, secret)) => {
            match store.session_idx_by_id(&tid) {
                None => {
                    proof {
                        lemma_find_by_properties(store.sessions@, session_id_key(), tid@);
                    }
                    Err(ResolveError::NotFound)
                },
                Some(si) => {
                    proof {
                        lemma_find_by_properties(store.sessions@, session_id_key(), tid@);
                    }
                    if store.sessions[si].expires_on < now {
                        let uid = crate::bytes::bytes_clone(&store.sessions[si].user_id);
                        store.purge_expired_sessions(&uid, now);
                        proof {
                            lemma_purge_user_expired(
                                old(store).sessions@,
                                old(store).sessions@[si as int].user_id@,
                                now,
                            );
                            assert forall|k: int|
                                0 <= k < store.sessions@.len() implies (
                            #[trigger] store.sessions@[k]).wf() by {
                                assert(old(store).sessions@.contains(store.sessions@[k]));
                                let j = choose|j: int|
                                    0 <= j < old(store).sessions@.len() && old(store).sessions@[j]
                                        == store.sessions@[k];
                                assert(old(store).sessions@[j].wf());
                            }
                        }
                        Err(ResolveError::Expired)
                    } else if bind_ip && !bytes_eq(&store.sessions[si].loc.ip, observed_ip) {
                        Err(ResolveError::IpMismatch)
                    } else if !verify_secret(&secret, &store.sessions[si].token) {
                        Err(ResolveError::SecretMismatch)
                    } else {
                        let uid = crate::bytes::bytes_clone(&store.sessions[si].user_id);
                        match store.user_idx_by_id(&uid) {
                            None => {
                                proof {
                                    lemma_find_by_properties(store.users@, user_id_key(), uid@);
                                }
                                Err(ResolveError::NotFound)
                            },
                            Some(ui) => {
                                proof {
                                    lemma_find_by_properties(store.users@, user_id_key(), uid@);
                                }
                                Ok((ui, si))
                            },
                        }
                    }
                },
            }
        },
    }
}

/// The verification state machine: email first, then the second
/// factor or the plain confirmation, then fully verified.
pub open spec fn spec_verify_state(u: User, s: Session) -> VerifyState {
    if !u.email_verified {
        VerifyState::NeedsEmail
    } else if !s.valid {
        if u.has_mfa {
            VerifyState::NeedsMfa
        } else {
            VerifyState::NeedsConfirm
        }
    } else {
        VerifyState::Verified
    }
}

/// Which verification procedure, if any, still stands between this
/// (user, session) pair and privileged operations.
pub fn verified(user: &User, session: &Session) -> (r: VerifyState)
    ensures
        r == spec_verify_state(*user, *session),
{
    if !user.email_verified {
        VerifyState::NeedsEmail
    } else if !session.valid {
        if user.has_mfa {
            VerifyState::NeedsMfa
        } else {
            VerifyState::NeedsConfirm
        }
    } else {
        VerifyState::Verified
    }
}

/// Whether a change guarded by a per-field cooldown may proceed now.
pub fn check_rate_limit(last_change_ts: i64, cooldown_seconds: i64, now: i64) -> (r: bool)
    requires
        ts_ok(last_change_ts),
        0 <= cooldown_seconds <= crate::model::MAX_LIFETIME,
    ensures
        r == (now >= last_change_ts + cooldown_seconds),
{
    now >= last_change_ts + cooldown_seconds
}

/// A token issued against freshly stored rows resolves to exactly those
/// rows: the secret half verifies against the stored hash (and the store
/// holds only that hash), once, at the session just appended.
pub proof fn lemma_issued_token_resolves(
    users: Seq<User>,
    sessions: Seq<Session>,
    sess: Session,
    secret: Seq<u8>,
    ui: int,
    now: i64,
    ip: Seq<u8>,
    bind_ip: bool,
)
    requires
        is_object_id(sess.id@),
        secret.len() == 64,
        hash_matches(sess.token@, secret),
        find_by(sessions, session_id_key(), sess.id@) is None,
        now <= sess.expires_on,
        bind_ip ==> sess.loc.ip@ == ip,
        find_by(users, user_id_key(), sess.user_id@) == Some(ui),
    ensures
        ({
            let o = spec_identify(users, sessions.push(sess), sess.id@ + secret, now, ip, bind_ip);
            &&& o.result == Ok::<(int, int), ResolveError>((ui, sessions.len() as int))
            &&& o.sessions == sessions.push(sess)
        }),
{
    let token = sess.id@ + secret;
    assert(token.len() == 88);
    assert forall|i: int| 0 <= i < 24 implies is_hex(#[trigger] token[i]) by {
        assert(token[i] == sess.id@[i]);
        assert(is_lower_hex(sess.id@[i]));
    }
    assert(spec_token_wf(token));
    assert(spec_token_id(token) =~= sess.id@) by {
        assert(token.subrange(0, 24) =~= sess.id@);
        assert forall|i: int| 0 <= i < 24 implies #[trigger] spec_token_id(token)[i]
            == sess.id@[i] by {
            assert(is_lower_hex(sess.id@[i]));
            assert(lower_hex_of(sess.id@[i]) == sess.id@[i]);
        }
    }
    assert(spec_token_secret(token) =~= secret);
    let pushed = sessions.push(sess);
    lemma_find_by_properties(sessions, session_id_key(), sess.id@);
    assert forall|j: int| 0 <= j < sessions.len() implies session_id_key()(#[trigger] pushed[j])
        != sess.id@ by {
        assert(pushed[j] == sessions[j]);
    }
    lemma_find_by_skip(pushed, session_id_key(), sess.id@, sessions.len() as int);
    assert(pushed.skip(sessions.len() as int) =~= seq![sess]);
    assert(find_by(seq![sess], session_id_key(), sess.id@) == Some(0int)) by {
        assert(seq![sess][0] == sess);
    }
    assert(find_by(pushed, session_id_key(), sess.id@) == Some(sessions.len() as int));
}

} // verus!
