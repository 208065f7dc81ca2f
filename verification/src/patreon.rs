//! Records of a linked third-party backer account. The outside calls —
//! the code exchange and the identity read — happen at the caller's
//! edge; the engine makes the decisions and keeps the linked tokens
//! sealed at rest with the per-user envelope.

use vstd::prelude::*;

use crate::account::LINK_COOLDOWN;
use crate::bytes::{bytes_clone, bytes_vec_clone};
use crate::envelope::{open_for_user, seal_for_user, spec_open_for_user, VaultConfig};
use crate::model::{now_ok, User, MAX_LIFETIME};
use crate::store::Store;

verus! {

/// What the third party's token endpoint answers.
#[derive(Debug)]
pub struct PatreonTokenRes {
    pub token_type: Vec<u8>,
    pub access_token: Vec<u8>,
    pub expires_in: i32,
    pub refresh_token: Vec<u8>,
}

/// How an ongoing refresh should proceed.
#[derive(Debug)]
pub enum PatreonPlan {
    /// No link, or refreshed within the cooldown window.
    RateLimited,
    /// The stored access token is still live; use it.
    UseToken(Vec<u8>),
    /// The access token aged out; exchange the refresh token.
    NeedsRefresh(Vec<u8>),
    /// A stored sealed token does not open under the user's key.
    Unreadable,
}

/// Decide how to serve a refresh: rate-limited, with the stored access
/// token, or by exchanging the stored refresh token; either stored
/// token is unsealed on the way out.
pub fn patreon_plan(store: &Store, ui: usize, cfg: &VaultConfig, now: i64) -> (r: PatreonPlan)
    requires
        store.wf(),
        ui < store.users@.len(),
        now_ok(now),
    ensures
        ({
            let u = store.users@[ui as int];
            &&& (r is RateLimited <==> u.patreon_id is None || u.patreon_last_update
                + LINK_COOLDOWN > now)
            &&& (r matches PatreonPlan::UseToken(t) ==> u.patreon_token matches Some(blob)
                && spec_open_for_user(*cfg, u, blob@) == Some(t@) && now <= u.patreon_token_expires)
            &&& (r matches PatreonPlan::NeedsRefresh(t) ==> u.patreon_refresh_token matches Some(
                blob,
            ) && spec_open_for_user(*cfg, u, blob@) == Some(t@) && u.patreon_token_expires < now)
        }),
{
    if store.users[ui].patreon_id.is_none() || store.users[ui].patreon_last_update + LINK_COOLDOWN
        > now {
        return PatreonPlan::RateLimited;
    }
    if store.users[ui].patreon_token_expires < now {
        let blob = match &store.users[ui].patreon_refresh_token {
            None => {
                return PatreonPlan::Unreadable;
            },
            Some(b) => bytes_clone(b),
        };
        match open_for_user(cfg, &store.users[ui], &blob) {
            None => PatreonPlan::Unreadable,
            Some(t) => PatreonPlan::NeedsRefresh(t),
        }
    } else {
        let blob = match &store.users[ui].patreon_token {
            None => {
                return PatreonPlan::Unreadable;
            },
            Some(b) => bytes_clone(b),
        };
        match open_for_user(cfg, &store.users[ui], &blob) {
            None => PatreonPlan::Unreadable,
            Some(t) => PatreonPlan::UseToken(t),
        }
    }
}

/// Record a fresh link or refresh: stores the third-party identity and
/// tiers, seals both tokens for the user, and stamps the update time.
/// The token lifetime is capped at the largest interval the engine adds.
pub fn record_patreon_link(
    store: &mut Store,
    ui: usize,
    cfg: &VaultConfig,
    now: i64,
    patreon_id: &Vec<u8>,
    tiers: &Vec<Vec<u8>>,
    res: &PatreonTokenRes,
) -> (r: Result<(), ()>)
    requires
        old(store).wf(),
        ui < old(store).users@.len(),
        now_ok(now),
        res.access_token@.len() < 0x1000000,
        res.refresh_token@.len() < 0x1000000,
    ensures
        final(store).wf(),
        final(store).sessions@ == old(store).sessions@,
        final(store).oauth_apps@ == old(store).oauth_apps@,
        final(store).oauth_codes@ == old(store).oauth_codes@,
        final(store).oauth_sessions@ == old(store).oauth_sessions@,
        ({
            let u0 = old(store).users@[ui as int];
            &&& (r is Err <==> u0.patreon_id is Some && u0.patreon_last_update + LINK_COOLDOWN
                > now)
            &&& (r is Err ==> final(store).users@ == old(store).users@)
            &&& (r is Ok ==> {
                let u1 = final(store).users@[ui as int];
                &&& final(store).users@ == old(store).users@.update(ui as int, u1)
                &&& u1 == User {
                    patreon_id: u1.patreon_id,
                    patreon_tiers: u1.patreon_tiers,
                    patreon_last_update: now,
                    patreon_refresh_token: u1.patreon_refresh_token,
                    patreon_token: u1.patreon_token,
                    patreon_token_expires: u1.patreon_token_expires,
                    ..u0
                }
                &&& u1.patreon_id matches Some(pid) && pid@ == patreon_id@
                &&& u1.patreon_tiers@.len() == tiers@.len()
                &&& (forall|i: int|
                    0 <= i < tiers@.len() ==> (#[trigger] u1.patreon_tiers@[i])@ == tiers@[i]@)
                &&& u1.patreon_token matches Some(blob) && spec_open_for_user(*cfg, u1, blob@)
                    == Some(res.access_token@)
                &&& u1.patreon_refresh_token matches Some(blob) && spec_open_for_user(
                    *cfg,
                    u1,
                    blob@,
                ) == Some(res.refresh_token@)
            })
        }),
{
    if store.users[ui].patreon_id.is_some() && store.users[ui].patreon_last_update + LINK_COOLDOWN
        > now {
        return Err(());
    }
    let mut u = store.users.remove(ui);
    let ghost u0 = u;
    let sealed_refresh = seal_for_user(cfg, &u, &res.refresh_token);
    let sealed_access = seal_for_user(cfg, &u, &res.access_token);
    let expires_in: i64 = if res.expires_in < 0 {
        0
    } else if (res.expires_in as i64) > MAX_LIFETIME {
        MAX_LIFETIME
    } else {
        res.expires_in as i64
    };
    u.patreon_id = Some(bytes_clone(patreon_id));
    u.patreon_tiers = bytes_vec_clone(tiers);
    u.patreon_last_update = now;
    u.patreon_refresh_token = Some(sealed_refresh);
    u.patreon_token = Some(sealed_access);
    u.patreon_token_expires = now + expires_in;
    store.users.insert(ui, u);
    proof {
        assert(store.users@ =~= old(store).users@.update(ui as int, store.users@[ui as int]));
        assert forall|k: int| 0 <= k < store.users@.len() implies (#[trigger] store.users@[k]).wf()
            by {
            if k != ui as int {
                assert(store.users@[k] == old(store).users@[k]);
            }
        }
        assert(store.users@[ui as int].id@ == u0.id@);
    }
    Ok(())
}

/// Sever the link: clears the identity, the tiers and both sealed
/// tokens; permitted only while a link exists.
pub fn remove_patreon(store: &mut Store, ui: usize, now: i64) -> (r: Result<(), ()>)
    requires
        old(store).wf(),
        ui < old(store).users@.len(),
        now_ok(now),
    ensures
        final(store).wf(),
        final(store).sessions@ == old(store).sessions@,
        final(store).oauth_apps@ == old(store).oauth_apps@,
        final(store).oauth_codes@ == old(store).oauth_codes@,
        final(store).oauth_sessions@ == old(store).oauth_sessions@,
        ({
            let u0 = old(store).users@[ui as int];
            &&& (r is Ok <==> u0.patreon_id is Some)
            &&& (r is Err ==> final(store).users@ == old(store).users@)
            &&& (r is Ok ==> {
                let u1 = final(store).users@[ui as int];
                &&& final(store).users@ == old(store).users@.update(ui as int, u1)
                &&& u1 == User {
                    patreon_id: None,
                    patreon_tiers: u1.patreon_tiers,
                    patreon_last_update: now,
                    patreon_refresh_token: None,
                    patreon_token: None,
                    patreon_token_expires: 0,
                    ..u0
                }
                &&& u1.patreon_tiers@.len() == 0
            })
        }),
{
    if store.users[ui].patreon_id.is_none() {
        return Err(());
    }
    let mut u = store.users.remove(ui);
    u.patreon_id = None;
    u.patreon_tiers = Vec::new();
    u.patreon_last_update = now;
    u.patreon_refresh_token = None;
    u.patreon_token = None;
    u.patreon_token_expires = 0;
    store.users.insert(ui, u);
    proof {
        assert(store.users@ =~= old(store).users@.update(ui as int, store.users@[ui as int]));
        assert forall|k: int| 0 <= k < store.users@.len() implies (#[trigger] store.users@[k]).wf()
            by {
            if k != ui as int {
                assert(store.users@[k] == old(store).users@[k]);
            }
        }
    }
    Ok(())
}

} // verus!
