//! Account management: username and email changes with their cooldowns,
//! soft deletion with a grace period, restoration, and the records kept
//! for a linked third-party account.

use vstd::prelude::*;

use crate::bytes::{bytes_clone, bytes_eq};
use crate::crypto::random_token;
use crate::model::{now_ok, OAuthSession, Session, User, UserEmailUpdate};
use crate::signup::EMAIL_CODE_LEN;
use crate::store::{email_key, find_by, lemma_find_by_properties, username_key, Store};

verus! {

/// The cooldown between username or email changes, in seconds.
pub const FIELD_COOLDOWN: i64 = 900;

/// The cooldown between avatar changes, in seconds.
pub const AVATAR_COOLDOWN: i64 = 15;

/// The grace period between flagging an account and its deletion.
pub const DELETION_GRACE: i64 = 86400;

/// The cooldown between refreshes of a linked third-party account.
pub const LINK_COOLDOWN: i64 = 3600;

/// Failures of the account-field changes.
#[derive(Clone, Copy, Debug, PartialEq, Eq, Structural)]
pub enum ChangeError {
    /// The new value is empty.
    BadValue,
    /// The field was changed within its cooldown window.
    RateLimited,
    /// The bot-gate was not passed.
    BadCaptcha,
    /// Another user already holds the value.
    Taken,
    /// No pending change, or the submitted code does not match.
    BadCode,
}

/// Change a username: non-empty, outside the cooldown, past the
/// bot-gate, and not already held.
pub fn change_username(
    store: &mut Store,
    ui: usize,
    value: &Vec<u8>,
    captcha_ok: bool,
    now: i64,
) -> (r: Result<(), ChangeError>)
    requires
        old(store).wf(),
        ui < old(store).users@.len(),
        now_ok(now),
    ensures
        final(store).wf(),
        final(store).sessions@ == old(store).sessions@,
        final(store).oauth_apps@ == old(store).oauth_apps@,
        final(store).oauth_codes@ == old(store).oauth_codes@,
        final(store).oauth_sessions@ == old(store).oauth_sessions@,
        ({
            let u0 = old(store).users@[ui as int];
            let taken = find_by(old(store).users@, username_key(), value@) is Some;
            &&& (r == Err::<(), ChangeError>(ChangeError::BadValue) <==> value@.len() == 0)
            &&& (r == Err::<(), ChangeError>(ChangeError::RateLimited) <==> value@.len() != 0
                && u0.last_username_change + FIELD_COOLDOWN > now)
            &&& (r == Err::<(), ChangeError>(ChangeError::BadCaptcha) <==> value@.len() != 0
                && u0.last_username_change + FIELD_COOLDOWN <= now && !captcha_ok)
            &&& (r == Err::<(), ChangeError>(ChangeError::Taken) <==> value@.len() != 0
                && u0.last_username_change + FIELD_COOLDOWN <= now && captcha_ok && taken)
            &&& (r is Ok <==> value@.len() != 0 && u0.last_username_change + FIELD_COOLDOWN
                <= now && captcha_ok && !taken)
            &&& (r is Err ==> final(store).users@ == old(store).users@)
            &&& (r is Ok ==> {
                let u1 = final(store).users@[ui as int];
                &&& final(store).users@ == old(store).users@.update(ui as int, u1)
                &&& u1 == User { username: u1.username, last_username_change: now, ..u0 }
                &&& u1.username@ == value@
            })
        }),
{
    if value.len() == 0 {
        return Err(ChangeError::BadValue);
    }
    if store.users[ui].last_username_change + FIELD_COOLDOWN > now {
        return Err(ChangeError::RateLimited);
    }
    if !captcha_ok {
        return Err(ChangeError::BadCaptcha);
    }
    if store.user_idx_by_username(value).is_some() {
        return Err(ChangeError::Taken);
    }
    let mut u = store.users.remove(ui);
    u.username = bytes_clone(value);
    u.last_username_change = now;
    store.users.insert(ui, u);
    proof {
        assert(store.users@ =~= old(store).users@.update(ui as int, store.users@[ui as int]));
        assert forall|k: int| 0 <= k < store.users@.len() implies (#[trigger] store.users@[k]).wf()
            by {
            if k != ui as int {
                assert(store.users@[k] == old(store).users@[k]);
            }
        }
    }
    Ok(())
}

/// Begin an email change: non-empty, outside the cooldown, past the
/// bot-gate, and not already held. Stores the pending address with a
/// fresh six-byte code and hands the code back for mailing to the
/// current address.
pub fn change_email(store: &mut Store, ui: usize, value: &Vec<u8>, captcha_ok: bool, now: i64) -> (r:
    Result<Vec<u8>, ChangeError>)
    requires
        old(store).wf(),
        ui < old(store).users@.len(),
        now_ok(now),
    ensures
        final(store).wf(),
        final(store).sessions@ == old(store).sessions@,
        final(store).oauth_apps@ == old(store).oauth_apps@,
        final(store).oauth_codes@ == old(store).oauth_codes@,
        final(store).oauth_sessions@ == old(store).oauth_sessions@,
        ({
            let u0 = old(store).users@[ui as int];
            let taken = find_by(old(store).users@, email_key(), value@) is Some;
            &&& (r == Err::<Vec<u8>, ChangeError>(ChangeError::BadValue) <==> value@.len() == 0)
            &&& (r == Err::<Vec<u8>, ChangeError>(ChangeError::RateLimited) <==> value@.len()
                != 0 && u0.last_email_change + FIELD_COOLDOWN > now)
            &&& (r == Err::<Vec<u8>, ChangeError>(ChangeError::BadCaptcha) <==> value@.len() != 0
                && u0.last_email_change + FIELD_COOLDOWN <= now && !captcha_ok)
            &&& (r == Err::<Vec<u8>, ChangeError>(ChangeError::Taken) <==> value@.len() != 0
                && u0.last_email_change + FIELD_COOLDOWN <= now && captcha_ok && taken)
            &&& (r is Ok <==> value@.len() != 0 && u0.last_email_change + FIELD_COOLDOWN <= now
                && captcha_ok && !taken)
            &&& (r is Err ==> final(store).users@ == old(store).users@)
            &&& (r matches Ok(code) ==> {
                let u1 = final(store).users@[ui as int];
                &&& final(store).users@ == old(store).users@.update(ui as int, u1)
                &&& u1 == User { email_update: u1.email_update, last_email_change: now, ..u0 }
                &&& u1.email_update.email@ == value@
                &&& u1.email_update.verification_code@ == code@
                &&& code@.len() == EMAIL_CODE_LEN
            })
        }),
{
    if value.len() == 0 {
        return Err(ChangeError::BadValue);
    }
    if store.users[ui].last_email_change + FIELD_COOLDOWN > now {
        return Err(ChangeError::RateLimited);
    }
    if !captcha_ok {
        return Err(ChangeError::BadCaptcha);
    }
    if store.user_idx_by_email(value).is_some() {
        return Err(ChangeError::Taken);
    }
    let code = random_token(EMAIL_CODE_LEN);
    let mut u = store.users.remove(ui);
    u.email_update = UserEmailUpdate {
        email: bytes_clone(value),
        verification_code: bytes_clone(&code),
    };
    u.last_email_change = now;
    store.users.insert(ui, u);
    proof {
        assert(store.users@ =~= old(store).users@.update(ui as int, store.users@[ui as int]));
        assert forall|k: int| 0 <= k < store.users@.len() implies (#[trigger] store.users@[k]).wf()
            by {
            if k != ui as int {
                assert(store.users@[k] == old(store).users@[k]);
            }
        }
    }
    Ok(code)
}

/// Conclude an email change: with a pending address and a matching code,
/// the pending address becomes the account's address and the pending
/// change is cleared.
pub fn verify_change_email(store: &mut Store, ui: usize, code: &Vec<u8>) -> (r: Result<
    (),
    ChangeError,
>)
    requires
        old(store).wf(),
        ui < old(store).users@.len(),
    ensures
        final(store).wf(),
        final(store).sessions@ == old(store).sessions@,
        final(store).oauth_apps@ == old(store).oauth_apps@,
        final(store).oauth_codes@ == old(store).oauth_codes@,
        final(store).oauth_sessions@ == old(store).oauth_sessions@,
        ({
            let u0 = old(store).users@[ui as int];
            let pending = u0.email_update.email@.len() != 0;
            &&& (r is Ok <==> pending && code@ == u0.email_update.verification_code@)
            &&& (r is Err ==> r == Err::<(), ChangeError>(ChangeError::BadCode)
                && final(store).users@ == old(store).users@)
            &&& (r is Ok ==> {
                let u1 = final(store).users@[ui as int];
                &&& final(store).users@ == old(store).users@.update(ui as int, u1)
                &&& u1 == User { email: u1.email, email_update: u1.email_update, ..u0 }
                &&& u1.email@ == u0.email_update.email@
                &&& u1.email_update.email@.len() == 0
                &&& u1.email_update.verification_code@.len() == 0
            })
        }),
{
    if store.users[ui].email_update.email.len() == 0 {
        return Err(ChangeError::BadCode);
    }
    if !bytes_eq(code, &store.users[ui].email_update.verification_code) {
        return Err(ChangeError::BadCode);
    }
    let mut u = store.users.remove(ui);
    let pending = u.email_update;
    u.email = pending.email;
    u.email_update = UserEmailUpdate { email: Vec::new(), verification_code: Vec::new() };
    store.users.insert(ui, u);
    proof {
        assert(store.users@ =~= old(store).users@.update(ui as int, store.users@[ui as int]));
        assert forall|k: int| 0 <= k < store.users@.len() implies (#[trigger] store.users@[k]).wf()
            by {
            if k != ui as int {
                assert(store.users@[k] == old(store).users@[k]);
            }
        }
    }
    Ok(())
}

/// A session row survives an account deletion when it belongs to another
/// user.
pub open spec fn keep_other_session(s: Session, uid: Seq<u8>) -> bool {
    s.user_id@ != uid
}

/// Drop every session of `uid`.
pub open spec fn purge_sessions_of(sessions: Seq<Session>, uid: Seq<u8>) -> Seq<Session>
    decreases sessions.len(),
{
    if sessions.len() == 0 {
        sessions
    } else {
        let rest = purge_sessions_of(sessions.drop_first(), uid);
        if keep_other_session(sessions[0], uid) {
            seq![sessions[0]] + rest
        } else {
            rest
        }
    }
}

/// Every row kept was already present.
pub proof fn lemma_purge_sessions_of(sessions: Seq<Session>, uid: Seq<u8>)
    ensures
        forall|k: int|
            0 <= k < purge_sessions_of(sessions, uid).len() ==> sessions.contains(
                #[trigger] purge_sessions_of(sessions, uid)[k],
            ),
    decreases sessions.len(),
{
    if sessions.len() != 0 {
        lemma_purge_sessions_of(sessions.drop_first(), uid);
        let rest = purge_sessions_of(sessions.drop_first(), uid);
        assert forall|k: int| 0 <= k < rest.len() implies sessions.contains(rest[k]) by {
            assert(sessions.drop_first().contains(rest[k]));
            let j = choose|j: int|
                0 <= j < sessions.drop_first().len() && sessions.drop_first()[j] == rest[k];
            assert(sessions[j + 1] == rest[k]);
        }
        if keep_other_session(sessions[0], uid) {
            let out = seq![sessions[0]] + rest;
            assert(sessions.contains(sessions[0]));
            assert forall|k: int| 0 <= k < out.len() implies sessions.contains(out[k]) by {
                if k == 0 {
                    assert(out[0] == sessions[0]);
                } else {
                    assert(out[k] == rest[k - 1]);
                }
            }
        }
    }
}

/// An access grant survives an account deletion when it belongs to
/// another user.
pub open spec fn keep_other_grant(g: OAuthSession, uid: Seq<u8>) -> bool {
    g.user_id@ != uid
}

/// Drop every access grant of `uid`.
pub open spec fn purge_grants_of(grants: Seq<OAuthSession>, uid: Seq<u8>) -> Seq<OAuthSession>
    decreases grants.len(),
{
    if grants.len() == 0 {
        grants
    } else {
        let rest = purge_grants_of(grants.drop_first(), uid);
        if keep_other_grant(grants[0], uid) {
            seq![grants[0]] + rest
        } else {
            rest
        }
    }
}

/// Every row kept was already present.
pub proof fn lemma_purge_grants_of(grants: Seq<OAuthSession>, uid: Seq<u8>)
    ensures
        forall|k: int|
            0 <= k < purge_grants_of(grants, uid).len() ==> grants.contains(
                #[trigger] purge_grants_of(grants, uid)[k],
            ),
    decreases grants.len(),
{
    if grants.len() != 0 {
        lemma_purge_grants_of(grants.drop_first(), uid);
        let rest = purge_grants_of(grants.drop_first(), uid);
        assert forall|k: int| 0 <= k < rest.len() implies grants.contains(rest[k]) by {
            assert(grants.drop_first().contains(rest[k]));
            let j = choose|j: int|
                0 <= j < grants.drop_first().len() && grants.drop_first()[j] == rest[k];
            assert(grants[j + 1] == rest[k]);
        }
        if keep_other_grant(grants[0], uid) {
            let out = seq![grants[0]] + rest;
            assert(grants.contains(grants[0]));
            assert forall|k: int| 0 <= k < out.len() implies grants.contains(out[k]) by {
                if k == 0 {
                    assert(out[0] == grants[0]);
                } else {
                    assert(out[k] == rest[k - 1]);
                }
            }
        }
    }
}

impl Store {
    /// Remove every session of `uid`.
    fn purge_all_sessions_of(&mut self, uid: &Vec<u8>)
        ensures
            final(self).sessions@ == purge_sessions_of(old(self).sessions@, uid@),
            final(self).users@ == old(self).users@,
            final(self).oauth_apps@ == old(self).oauth_apps@,
            final(self).oauth_codes@ == old(self).oauth_codes@,
            final(self).oauth_sessions@ == old(self).oauth_sessions@,
    {
        let ghost orig = self.sessions@;
        let n = self.sessions.len();
        let mut kept: Vec<Session> = Vec::new();
        let mut i: usize = 0;
        proof {
            assert(self.sessions@ =~= orig.skip(0));
        }
        while i < n
            invariant
                n == orig.len(),
                0 <= i <= n,
                self.sessions@ == orig.skip(i as int),
                self.users@ == old(self).users@,
                self.oauth_apps@ == old(self).oauth_apps@,
                self.oauth_codes@ == old(self).oauth_codes@,
                self.oauth_sessions@ == old(self).oauth_sessions@,
                purge_sessions_of(orig, uid@) == kept@ + purge_sessions_of(
                    orig.skip(i as int),
                    uid@,
                ),
            decreases n - i,
        {
            let ghost tail = orig.skip(i as int);
            let row = self.sessions.remove(0);
            proof {
                assert(row == orig[i as int]);
                assert(self.sessions@ =~= orig.skip(i as int + 1));
                assert(tail[0] == orig[i as int]);
                assert(tail.drop_first() =~= orig.skip(i as int + 1));
            }
            let keep = !bytes_eq(&row.user_id, uid);
            proof {
                assert(keep == keep_other_session(orig[i as int], uid@));
                if keep {
                    assert(purge_sessions_of(tail, uid@) =~= seq![orig[i as int]]
                        + purge_sessions_of(orig.skip(i as int + 1), uid@));
                    assert((kept@ + purge_sessions_of(tail, uid@)) =~= (kept@.push(
                        orig[i as int],
                    ) + purge_sessions_of(orig.skip(i as int + 1), uid@)));
                } else {
                    assert(purge_sessions_of(tail, uid@) =~= purge_sessions_of(
                        orig.skip(i as int + 1),
                        uid@,
                    ));
                }
            }
            if keep {
                kept.push(row);
            }
            i += 1;
        }
        proof {
            assert(orig.skip(n as int).len() == 0);
            assert(purge_sessions_of(orig, uid@) =~= kept@);
        }
        self.sessions = kept;
    }

    /// Remove every access grant of `uid`.
    fn purge_all_grants_of(&mut self, uid: &Vec<u8>)
        ensures
            final(self).oauth_sessions@ == purge_grants_of(old(self).oauth_sessions@, uid@),
            final(self).users@ == old(self).users@,
            final(self).sessions@ == old(self).sessions@,
            final(self).oauth_apps@ == old(self).oauth_apps@,
            final(self).oauth_codes@ == old(self).oauth_codes@,
    {
        let ghost orig = self.oauth_sessions@;
        let n = self.oauth_sessions.len();
        let mut kept: Vec<OAuthSession> = Vec::new();
        let mut i: usize = 0;
        proof {
            assert(self.oauth_sessions@ =~= orig.skip(0));
        }
        while i < n
            invariant
                n == orig.len(),
                0 <= i <= n,
                self.oauth_sessions@ == orig.skip(i as int),
                self.users@ == old(self).users@,
                self.sessions@ == old(self).sessions@,
                self.oauth_apps@ == old(self).oauth_apps@,
                self.oauth_codes@ == old(self).oauth_codes@,
                purge_grants_of(orig, uid@) == kept@ + purge_grants_of(
                    orig.skip(i as int),
                    uid@,
                ),
            decreases n - i,
        {
            let ghost tail = orig.skip(i as int);
            let row = self.oauth_sessions.remove(0);
            proof {
                assert(row == orig[i as int]);
                assert(self.oauth_sessions@ =~= orig.skip(i as int + 1));
                assert(tail[0] == orig[i as int]);
                assert(tail.drop_first() =~= orig.skip(i as int + 1));
            }
            let keep = !bytes_eq(&row.user_id, uid);
            proof {
                assert(keep == keep_other_grant(orig[i as int], uid@));
                if keep {
                    assert(purge_grants_of(tail, uid@) =~= seq![orig[i as int]] + purge_grants_of(
                        orig.skip(i as int + 1),
                        uid@,
                    ));
                    assert((kept@ + purge_grants_of(tail, uid@)) =~= (kept@.push(orig[i as int])
                        + purge_grants_of(orig.skip(i as int + 1), uid@)));
                } else {
                    assert(purge_grants_of(tail, uid@) =~= purge_grants_of(
                        orig.skip(i as int + 1),
                        uid@,
                    ));
                }
            }
            if keep {
                kept.push(row);
            }
            i += 1;
        }
        proof {
            assert(orig.skip(n as int).len() == 0);
            assert(purge_grants_of(orig, uid@) =~= kept@);
        }
        self.oauth_sessions = kept;
    }
}

/// Failures of deletion and restoration.
#[derive(Clone, Copy, Debug, PartialEq, Eq, Structural)]
pub enum DeletionError {
    /// The account is not flagged for deletion.
    NotFlagged,
    /// The grace period has already passed.
    Gone,
}

/// Flag an account for deletion after the grace period, and revoke every
/// session and access grant it holds.
pub fn delete_account(store: &mut Store, ui: usize, now: i64)
    requires
        old(store).wf(),
        ui < old(store).users@.len(),
        now_ok(now),
    ensures
        final(store).wf(),
        final(store).oauth_apps@ == old(store).oauth_apps@,
        final(store).oauth_codes@ == old(store).oauth_codes@,
        ({
            let u0 = old(store).users@[ui as int];
            let u1 = final(store).users@[ui as int];
            &&& final(store).users@ == old(store).users@.update(ui as int, u1)
            &&& u1 == User {
                deletion_flagged_after: Some((now + DELETION_GRACE) as i64),
                ..u0
            }
            &&& final(store).sessions@ == purge_sessions_of(old(store).sessions@, u0.id@)
            &&& final(store).oauth_sessions@ == purge_grants_of(
                old(store).oauth_sessions@,
                u0.id@,
            )
        }),
{
    let mut u = store.users.remove(ui);
    let uid = bytes_clone(&u.id);
    u.deletion_flagged_after = Some(now + DELETION_GRACE);
    store.users.insert(ui, u);
    proof {
        assert(store.users@ =~= old(store).users@.update(ui as int, store.users@[ui as int]));
        assert forall|k: int| 0 <= k < store.users@.len() implies (#[trigger] store.users@[k]).wf()
            by {
            if k != ui as int {
                assert(store.users@[k] == old(store).users@[k]);
            }
        }
    }
    store.purge_all_sessions_of(&uid);
    store.purge_all_grants_of(&uid);
    proof {
        lemma_purge_sessions_of(old(store).sessions@, uid@);
        assert forall|k: int|
            0 <= k < store.sessions@.len() implies (#[trigger] store.sessions@[k]).wf() by {
            assert(old(store).sessions@.contains(store.sessions@[k]));
            let j = choose|j: int|
                0 <= j < old(store).sessions@.len() && old(store).sessions@[j]
                    == store.sessions@[k];
            assert(old(store).sessions@[j].wf());
        }
        lemma_purge_grants_of(old(store).oauth_sessions@, uid@);
        assert forall|k: int|
            0 <= k < store.oauth_sessions@.len() implies (#[trigger] store.oauth_sessions@[
        k]).wf() by {
            assert(old(store).oauth_sessions@.contains(store.oauth_sessions@[k]));
            let j = choose|j: int|
                0 <= j < old(store).oauth_sessions@.len() && old(store).oauth_sessions@[j]
                    == store.oauth_sessions@[k];
            assert(old(store).oauth_sessions@[j].wf());
        }
    }
}

/// Undo a deletion flag while the grace period still runs.
pub fn restore_account(store: &mut Store, ui: usize, now: i64) -> (r: Result<(), DeletionError>)
    requires
        old(store).wf(),
        ui < old(store).users@.len(),
    ensures
        final(store).wf(),
        final(store).sessions@ == old(store).sessions@,
        final(store).oauth_apps@ == old(store).oauth_apps@,
        final(store).oauth_codes@ == old(store).oauth_codes@,
        final(store).oauth_sessions@ == old(store).oauth_sessions@,
        ({
            let u0 = old(store).users@[ui as int];
            &&& (r == Err::<(), DeletionError>(DeletionError::NotFlagged) <==>
                u0.deletion_flagged_after is None)
            &&& (u0.deletion_flagged_after matches Some(at) ==> {
                &&& (r == Err::<(), DeletionError>(DeletionError::Gone) <==> at < now)
                &&& (r is Ok <==> now <= at)
                &&& (r is Ok ==> {
                    let u1 = final(store).users@[ui as int];
                    &&& final(store).users@ == old(store).users@.update(ui as int, u1)
                    &&& u1 == User { deletion_flagged_after: None, ..u0 }
                })
            })
            &&& (r is Err ==> final(store).users@ == old(store).users@)
        }),
{
    let at = match store.users[ui].deletion_flagged_after {
        None => {
            return Err(DeletionError::NotFlagged);
        },
        Some(at) => at,
    };
    if at < now {
        return Err(DeletionError::Gone);
    }
    let mut u = store.users.remove(ui);
    u.deletion_flagged_after = None;
    store.users.insert(ui, u);
    proof {
        assert(store.users@ =~= old(store).users@.update(ui as int, store.users@[ui as int]));
        assert forall|k: int| 0 <= k < store.users@.len() implies (#[trigger] store.users@[k]).wf()
            by {
            if k != ui as int {
                assert(store.users@[k] == old(store).users@[k]);
            }
        }
    }
    Ok(())
}

/// Whether the account is flagged for deletion and how long is left:
/// the remaining seconds, or -1 when it is not flagged.
pub fn deletion_state(store: &Store, ui: usize, now: i64) -> (r: (bool, i64))
    requires
        store.wf(),
        ui < store.users@.len(),
        now_ok(now),
    ensures
        ({
            let u = store.users@[ui as int];
            match u.deletion_flagged_after {
                Some(at) => r.0 == true && r.1 == at - now,
                None => r.0 == false && r.1 == -1,
            }
        }),
{
    match store.users[ui].deletion_flagged_after {
        Some(at) => (true, at - now),
        None => (false, -1),
    }
}

} // verus!
