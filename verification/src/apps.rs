//! OAuth application management: registering an application, looking one
//! up for the consent screen, listing and revoking issued grants, and the
//! data-deletion worklist an application may poll.

use vstd::prelude::*;

use crate::bytes::{bytes_clone, bytes_eq, contains_bytes, spec_contains_bytes};
use crate::crypto::{fresh_id, hash_matches, hash_secret, random_token, verify_secret};
use crate::model::{is_object_id, OAuthApplication, PublicSession, User};
use crate::oauth::{lemma_purge_grants, purge_grants, spec_bearer_prefix, OAuthError};
use crate::store::{
    app_id_key, find_by, grant_id_key, lemma_find_by_properties, Store,
};
use crate::token::TOKEN_SECRET_LEN;

verus! {

/// `"DEV"`, the role that may register applications.
pub open spec fn spec_role_dev() -> Seq<u8> {
    seq![0x44u8, 0x45, 0x56]
}

fn role_dev_bytes() -> (r: Vec<u8>)
    ensures
        r@ == spec_role_dev(),
{
    let mut v: Vec<u8> = Vec::new();
    v.push(0x44);
    v.push(0x45);
    v.push(0x56);
    proof {
        assert(v@ =~= spec_role_dev());
    }
    v
}

/// What registering an application hands back: its id and the raw
/// client secret, shown exactly once; only the secret's hash is stored.
#[derive(Debug)]
pub struct AddAppSuccess {
    pub id: Vec<u8>,
    pub key: Vec<u8>,
}

/// Failures of application registration.
#[derive(Clone, Copy, Debug, PartialEq, Eq, Structural)]
pub enum AddAppError {
    /// The user does not hold the developer role.
    NotPermitted,
    /// A freshly drawn row identifier collided with an existing row.
    Internal,
}

/// Register an application: developer role required; stores the hashed
/// client secret and the registered redirect set.
pub fn add_app(store: &mut Store, ui: usize, name: &Vec<u8>, redirect_uris: Vec<Vec<u8>>) -> (r:
    Result<AddAppSuccess, AddAppError>)
    requires
        old(store).wf(),
        ui < old(store).users@.len(),
    ensures
        final(store).wf(),
        final(store).users@ == old(store).users@,
        final(store).sessions@ == old(store).sessions@,
        final(store).oauth_codes@ == old(store).oauth_codes@,
        final(store).oauth_sessions@ == old(store).oauth_sessions@,
        ({
            let dev = spec_contains_bytes(old(store).users@[ui as int].roles@, spec_role_dev());
            &&& (r == Err::<AddAppSuccess, AddAppError>(AddAppError::NotPermitted) <==> !dev)
            &&& (r is Err ==> final(store).oauth_apps@ == old(store).oauth_apps@)
            &&& (r matches Ok(s) ==> {
                let app = final(store).oauth_apps@.last();
                &&& final(store).oauth_apps@ == old(store).oauth_apps@.push(app)
                &&& find_by(old(store).oauth_apps@, app_id_key(), app.id@) is None
                &&& app.id@ == s.id@
                &&& is_object_id(app.id@)
                &&& app.name@ == name@
                &&& app.allow_skip == false
                &&& hash_matches(app.key@, s.key@)
                &&& s.key@.len() == TOKEN_SECRET_LEN
                &&& app.owner_id@ == old(store).users@[ui as int].id@
                &&& app.redirect_uris@ == redirect_uris@
            })
        }),
{
    if !contains_bytes(&store.users[ui].roles, &role_dev_bytes()) {
        return Err(AddAppError::NotPermitted);
    }
    let aid = fresh_id();
    if store.app_idx_by_id(&aid).is_some() {
        return Err(AddAppError::Internal);
    }
    proof {
        lemma_find_by_properties(store.oauth_apps@, app_id_key(), aid@);
    }
    let key = random_token(TOKEN_SECRET_LEN);
    let key_hash = hash_secret(&key);
    let app = OAuthApplication {
        id: bytes_clone(&aid),
        name: bytes_clone(name),
        allow_skip: false,
        key: key_hash,
        redirect_uris,
        owner_id: bytes_clone(&store.users[ui].id),
    };
    store.oauth_apps.push(app);
    proof {
        assert(store.oauth_apps@.last() == store.oauth_apps@[store.oauth_apps@.len() - 1]);
        assert forall|k: int|
            0 <= k < store.oauth_apps@.len() implies (#[trigger] store.oauth_apps@[k]).wf() by {
            if k < store.oauth_apps@.len() - 1 {
                assert(store.oauth_apps@[k] == old(store).oauth_apps@[k]);
            }
        }
    }
    Ok(AddAppSuccess { id: aid, key })
}

/// What the consent screen learns of an application.
#[derive(Debug)]
pub enum AppInfo {
    /// No application carries the id.
    Unknown,
    /// The application exists but has not registered this redirect URI.
    BadRedirect,
    /// The application and redirect URI are valid.
    Valid { name: Vec<u8>, allow_skip: bool },
}

/// Look an application up for the consent screen.
pub fn app_info(store: &Store, client_id: &Vec<u8>, redirect_uri: &Vec<u8>) -> (r: AppInfo)
    requires
        store.wf(),
    ensures
        ({
            let parsed = crate::token::spec_parse_id(client_id@);
            &&& (r is Unknown <==> parsed is None || find_by(
                store.oauth_apps@,
                app_id_key(),
                parsed->0,
            ) is None)
            &&& (parsed matches Some(aid) ==> (find_by(
                store.oauth_apps@,
                app_id_key(),
                aid,
            ) matches Some(ai) ==> {
                let app = store.oauth_apps@[ai];
                &&& (r is BadRedirect <==> !spec_contains_bytes(
                    app.redirect_uris@,
                    redirect_uri@,
                ))
                &&& (r matches AppInfo::Valid { name, allow_skip } ==> name@ == app.name@
                    && allow_skip == app.allow_skip && spec_contains_bytes(
                    app.redirect_uris@,
                    redirect_uri@,
                ))
            }))
        }),
{
    let aid = match crate::token::parse_id(client_id) {
        None => {
            return AppInfo::Unknown;
        },
        Some(aid) => aid,
    };
    let ai = match store.app_idx_by_id(&aid) {
        None => {
            proof {
                lemma_find_by_properties(store.oauth_apps@, app_id_key(), aid@);
            }
            return AppInfo::Unknown;
        },
        Some(ai) => ai,
    };
    proof {
        lemma_find_by_properties(store.oauth_apps@, app_id_key(), aid@);
    }
    if !contains_bytes(&store.oauth_apps[ai].redirect_uris, redirect_uri) {
        return AppInfo::BadRedirect;
    }
    AppInfo::Valid {
        name: bytes_clone(&store.oauth_apps[ai].name),
        allow_skip: store.oauth_apps[ai].allow_skip,
    }
}

/// Revoke one of the user's own access grants by its id. Reports whether
/// a grant was removed; a grant of another user is left alone.
pub fn logout_oauth(store: &mut Store, ui: usize, grant_id: &Vec<u8>) -> (r: bool)
    requires
        old(store).wf(),
        ui < old(store).users@.len(),
    ensures
        final(store).wf(),
        final(store).users@ == old(store).users@,
        final(store).sessions@ == old(store).sessions@,
        final(store).oauth_apps@ == old(store).oauth_apps@,
        final(store).oauth_codes@ == old(store).oauth_codes@,
        ({
            let parsed = crate::token::spec_parse_id(grant_id@);
            match parsed {
                None => r == false && final(store).oauth_sessions@ == old(
                    store).oauth_sessions@,
                Some(gid) => match find_by(old(store).oauth_sessions@, grant_id_key(), gid) {
                    None => r == false && final(store).oauth_sessions@ == old(
                        store).oauth_sessions@,
                    Some(gi) => {
                        if old(store).oauth_sessions@[gi].user_id@ == old(store).users@[
                            ui as int].id@ {
                            r == true && final(store).oauth_sessions@ == old(
                                store).oauth_sessions@.remove(gi)
                        } else {
                            r == false && final(store).oauth_sessions@ == old(
                                store).oauth_sessions@
                        }
                    },
                },
            }
        }),
{
    let gid = match crate::token::parse_id(grant_id) {
        None => {
            return false;
        },
        Some(gid) => gid,
    };
    let gi = match store.grant_idx_by_id(&gid) {
        None => {
            proof {
                lemma_find_by_properties(store.oauth_sessions@, grant_id_key(), gid@);
            }
            return false;
        },
        Some(gi) => gi,
    };
    proof {
        lemma_find_by_properties(store.oauth_sessions@, grant_id_key(), gid@);
    }
    if !bytes_eq(&store.oauth_sessions[gi].user_id, &store.users[ui].id) {
        return false;
    }
    store.oauth_sessions.remove(gi);
    proof {
        assert forall|k: int|
            0 <= k < store.oauth_sessions@.len() implies (#[trigger] store.oauth_sessions@[
        k]).wf() by {
            if k < gi as int {
                assert(store.oauth_sessions@[k] == old(store).oauth_sessions@[k]);
            } else {
                assert(store.oauth_sessions@[k] == old(store).oauth_sessions@[k + 1]);
            }
        }
    }
    true
}

/// The elements of `v` whose content is not `x`.
pub open spec fn spec_remove_bytes(v: Seq<Vec<u8>>, x: Seq<u8>) -> Seq<Vec<u8>>
    decreases v.len(),
{
    if v.len() == 0 {
        v
    } else {
        let rest = spec_remove_bytes(v.drop_first(), x);
        if v[0]@ != x {
            seq![v[0]] + rest
        } else {
            rest
        }
    }
}

/// Drop every element equal to `x`.
fn remove_bytes_all(v: Vec<Vec<u8>>, x: &Vec<u8>) -> (r: Vec<Vec<u8>>)
    ensures
        r@ == spec_remove_bytes(v@, x@),
{
    let ghost orig = v@;
    let mut v = v;
    let mut kept: Vec<Vec<u8>> = Vec::new();
    let n = v.len();
    let mut i: usize = 0;
    proof {
        assert(v@ =~= orig.skip(0));
    }
    while i < n
        invariant
            n == orig.len(),
            0 <= i <= n,
            v@ == orig.skip(i as int),
            spec_remove_bytes(orig, x@) == kept@ + spec_remove_bytes(orig.skip(i as int), x@),
        decreases n - i,
    {
        let ghost tail = orig.skip(i as int);
        let row = v.remove(0);
        proof {
            assert(row == orig[i as int]);
            assert(v@ =~= orig.skip(i as int + 1));
            assert(tail[0] == orig[i as int]);
            assert(tail.drop_first() =~= orig.skip(i as int + 1));
        }
        let keep = !bytes_eq(&row, x);
        proof {
            if keep {
                assert(spec_remove_bytes(tail, x@) =~= seq![orig[i as int]] + spec_remove_bytes(
                    orig.skip(i as int + 1),
                    x@,
                ));
                assert((kept@ + spec_remove_bytes(tail, x@)) =~= (kept@.push(orig[i as int])
                    + spec_remove_bytes(orig.skip(i as int + 1), x@)));
            } else {
                assert(spec_remove_bytes(tail, x@) =~= spec_remove_bytes(
                    orig.skip(i as int + 1),
                    x@,
                ));
            }
        }
        if keep {
            kept.push(row);
        }
        i += 1;
    }
    proof {
        assert(orig.skip(n as int).len() == 0);
        assert(spec_remove_bytes(orig, x@) =~= kept@);
    }
    kept
}

/// Revoke an application entirely for the user: the grant id names the
/// application; every grant of that application is removed, the
/// application leaves the user's authorized set, and it is marked for
/// data deletion.
pub fn remove_oauth_app(store: &mut Store, ui: usize, grant_id: &Vec<u8>) -> (r: Result<(), ()>)
    requires
        old(store).wf(),
        ui < old(store).users@.len(),
    ensures
        final(store).wf(),
        final(store).sessions@ == old(store).sessions@,
        final(store).oauth_apps@ == old(store).oauth_apps@,
        final(store).oauth_codes@ == old(store).oauth_codes@,
        ({
            let parsed = crate::token::spec_parse_id(grant_id@);
            let uid = old(store).users@[ui as int].id@;
            &&& (r is Err ==> final(store).users@ == old(store).users@ && final(
                store).oauth_sessions@ == old(store).oauth_sessions@)
            &&& (parsed matches Some(gid) ==> (find_by(
                old(store).oauth_sessions@,
                grant_id_key(),
                gid,
            ) matches Some(gi) ==> {
                let g = old(store).oauth_sessions@[gi];
                g.user_id@ == uid ==> {
                    let u0 = old(store).users@[ui as int];
                    let u1 = final(store).users@[ui as int];
                    &&& r is Ok
                    &&& final(store).oauth_sessions@ == purge_grants(
                        old(store).oauth_sessions@,
                        uid,
                        g.app_id@,
                    )
                    &&& final(store).users@ == old(store).users@.update(ui as int, u1)
                    &&& u1 == User {
                        allowed_apps: u1.allowed_apps,
                        apps_to_delete_data: u1.apps_to_delete_data,
                        ..u0
                    }
                    &&& u1.allowed_apps@ == spec_remove_bytes(u0.allowed_apps@, g.app_id@)
                    &&& u1.apps_to_delete_data@ == u0.apps_to_delete_data@.push(
                        u1.apps_to_delete_data@.last(),
                    )
                    &&& u1.apps_to_delete_data@.last()@ == g.app_id@
                }
            }))
        }),
{
    let gid = match crate::token::parse_id(grant_id) {
        None => {
            return Err(());
        },
        Some(gid) => gid,
    };
    let gi = match store.grant_idx_by_id(&gid) {
        None => {
            proof {
                lemma_find_by_properties(store.oauth_sessions@, grant_id_key(), gid@);
            }
            return Err(());
        },
        Some(gi) => gi,
    };
    proof {
        lemma_find_by_properties(store.oauth_sessions@, grant_id_key(), gid@);
    }
    if !bytes_eq(&store.oauth_sessions[gi].user_id, &store.users[ui].id) {
        return Err(());
    }
    let app_id = bytes_clone(&store.oauth_sessions[gi].app_id);
    let uid = bytes_clone(&store.users[ui].id);
    store.purge_grant_rows(&uid, &app_id);
    proof {
        lemma_purge_grants(old(store).oauth_sessions@, uid@, app_id@);
        assert forall|k: int|
            0 <= k < store.oauth_sessions@.len() implies (#[trigger] store.oauth_sessions@[
        k]).wf() by {
            assert(old(store).oauth_sessions@.contains(store.oauth_sessions@[k]));
            let j = choose|j: int|
                0 <= j < old(store).oauth_sessions@.len() && old(store).oauth_sessions@[j]
                    == store.oauth_sessions@[k];
            assert(old(store).oauth_sessions@[j].wf());
        }
    }
    let mut u = store.users.remove(ui);
    u.allowed_apps = remove_bytes_all(u.allowed_apps, &app_id);
    u.apps_to_delete_data.push(app_id);
    store.users.insert(ui, u);
    proof {
        assert(store.users@ =~= old(store).users@.update(ui as int, store.users@[ui as int]));
        assert forall|k: int| 0 <= k < store.users@.len() implies (#[trigger] store.users@[k]).wf()
            by {
            if k != ui as int {
                assert(store.users@[k] == old(store).users@[k]);
            }
        }
    }
    Ok(())
}

/// The grants of `uid`, in store order.
pub open spec fn user_grants(grants: Seq<crate::model::OAuthSession>, uid: Seq<u8>) -> Seq<
    crate::model::OAuthSession,
>
    decreases grants.len(),
{
    if grants.len() == 0 {
        grants
    } else {
        let rest = user_grants(grants.drop_first(), uid);
        if grants[0].user_id@ == uid {
            seq![grants[0]] + rest
        } else {
            rest
        }
    }
}

/// The display record `p` shows the grant `g` faithfully, marked as the
/// current session exactly when its id equals `cur`.
pub open spec fn grant_display_ok(
    p: PublicSession,
    g: crate::model::OAuthSession,
    cur: Option<Seq<u8>>,
) -> bool {
    &&& p.id@ == g.id@
    &&& p.created_on == g.created_on
    &&& p.expires_on == g.expires_on
    &&& p.loc is None
    &&& p.app_name matches Some(n) && n@ == g.app_name@
    &&& p.is_this == (cur matches Some(c) && g.id@ == c)
}

/// The user's access grants, in order, as display records; the grant
/// whose id equals `current`, if any, is marked as this session.
pub fn sessions_oauth(store: &Store, ui: usize, current: Option<&Vec<u8>>) -> (r: Vec<
    PublicSession,
>)
    requires
        store.wf(),
        ui < store.users@.len(),
    ensures
        ({
            let mine = user_grants(store.oauth_sessions@, store.users@[ui as int].id@);
            let cur = match current {
                None => None::<Seq<u8>>,
                Some(c) => Some(c@),
            };
            &&& r@.len() == mine.len()
            &&& forall|k: int|
                0 <= k < mine.len() ==> grant_display_ok(r@[k], #[trigger] mine[k], cur)
        }),
{
    let uid = bytes_clone(&store.users[ui].id);
    let ghost all = store.oauth_sessions@;
    let ghost cur = match current {
        None => None::<Seq<u8>>,
        Some(c) => Some(c@),
    };
    let n = store.oauth_sessions.len();
    let mut out: Vec<PublicSession> = Vec::new();
    let mut i: usize = 0;
    proof {
        assert(all.skip(0) =~= all);
    }
    while i < n
        invariant
            0 <= i <= n,
            n == all.len(),
            store.oauth_sessions@ == all,
            uid@ == store.users@[ui as int].id@,
            ui < store.users@.len(),
            store.wf(),
            cur == match current {
                None => None::<Seq<u8>>,
                Some(c) => Some(c@),
            },
            user_grants(all, uid@).len() == out@.len() + user_grants(
                all.skip(i as int),
                uid@,
            ).len(),
            forall|k: int|
                0 <= k < out@.len() ==> grant_display_ok(
                    out@[k],
                    #[trigger] user_grants(all, uid@)[k],
                    cur,
                ),
            forall|k: int|
                0 <= k < user_grants(all.skip(i as int), uid@).len() ==> #[trigger] user_grants(
                    all.skip(i as int),
                    uid@,
                )[k] == user_grants(all, uid@)[out@.len() + k],
        decreases n - i,
    {
        let ghost tail = all.skip(i as int);
        proof {
            assert(tail[0] == all[i as int]);
            assert(tail.drop_first() =~= all.skip(i as int + 1));
        }
        if bytes_eq(&store.oauth_sessions[i].user_id, &uid) {
            let is_this = match current {
                None => false,
                Some(c) => bytes_eq(&store.oauth_sessions[i].id, c),
            };
            let g = &store.oauth_sessions[i];
            proof {
                assert(user_grants(tail, uid@) =~= seq![all[i as int]] + user_grants(
                    all.skip(i as int + 1),
                    uid@,
                ));
                assert(user_grants(tail, uid@)[0] == all[i as int]);
                assert(user_grants(all, uid@)[out@.len() as int] == all[i as int]);
            }
            let ghost before = out@.len() as int;
            out.push(
                PublicSession {
                    id: bytes_clone(&g.id),
                    created_on: g.created_on,
                    expires_on: g.expires_on,
                    loc: None,
                    app_name: Some(bytes_clone(&g.app_name)),
                    is_this,
                },
            );
            proof {
                assert(grant_display_ok(out@[before], all[i as int], cur));
                assert forall|k: int|
                    0 <= k < user_grants(all.skip(i as int + 1), uid@).len()
                        implies #[trigger] user_grants(all.skip(i as int + 1), uid@)[k]
                        == user_grants(all, uid@)[out@.len() + k] by {
                    assert(user_grants(all.skip(i as int + 1), uid@)[k] == user_grants(
                        tail,
                        uid@,
                    )[k + 1]);
                    assert(user_grants(tail, uid@)[k + 1] == user_grants(all, uid@)[before + 1
                        + k]);
                }
            }
        } else {
            proof {
                assert(user_grants(tail, uid@) =~= user_grants(all.skip(i as int + 1), uid@));
            }
        }
        i += 1;
    }
    proof {
        assert(all.skip(n as int).len() == 0);
        assert(user_grants(all.skip(n as int), uid@).len() == 0);
    }
    out
}

/// The worklist of users whose data an application must delete: the
/// application authenticates with its secret and receives the indexes of
/// every user that marked it.
pub fn apps_to_delete_users(store: &Store, client_id: &Vec<u8>, auth: &Vec<u8>) -> (r: Result<
    Vec<usize>,
    OAuthError,
>)
    requires
        store.wf(),
    ensures
        ({
            let parsed = crate::token::spec_parse_id(client_id@);
            let bearer_ok = auth@.len() >= 7 && auth@.subrange(0, 7) == spec_bearer_prefix();
            &&& ((parsed is None || find_by(store.oauth_apps@, app_id_key(), parsed->0)
                is None) ==> r == Err::<Vec<usize>, OAuthError>(OAuthError::InvalidApp))
            &&& (parsed matches Some(aid) ==> (find_by(
                store.oauth_apps@,
                app_id_key(),
                aid,
            ) matches Some(ai) ==> {
                let app = store.oauth_apps@[ai];
                &&& (!bearer_ok || !hash_matches(app.key@, auth@.skip(7)) ==> r == Err::<
                    Vec<usize>,
                    OAuthError,
                >(OAuthError::InvalidAppKey))
                &&& (bearer_ok && hash_matches(app.key@, auth@.skip(7)) ==> r is Ok)
                &&& (r matches Ok(list) ==> {
                    &&& (forall|k: int|
                        0 <= k < list@.len() ==> (#[trigger] list@[k]) < store.users@.len()
                            && spec_contains_bytes(
                            store.users@[list@[k] as int].apps_to_delete_data@,
                            aid,
                        ))
                    &&& (forall|j: int|
                        0 <= j < store.users@.len() && spec_contains_bytes(
                            (#[trigger] store.users@[j]).apps_to_delete_data@,
                            aid,
                        ) ==> exists|k: int| 0 <= k < list@.len() && list@[k] == j)
                })
            }))
        }),
{
    let aid = match crate::token::parse_id(client_id) {
        None => {
            return Err(OAuthError::InvalidApp);
        },
        Some(aid) => aid,
    };
    let ai = match store.app_idx_by_id(&aid) {
        None => {
            proof {
                lemma_find_by_properties(store.oauth_apps@, app_id_key(), aid@);
            }
            return Err(OAuthError::InvalidApp);
        },
        Some(ai) => ai,
    };
    proof {
        lemma_find_by_properties(store.oauth_apps@, app_id_key(), aid@);
    }
    let key = match crate::oauth::strip_bearer(auth) {
        None => {
            return Err(OAuthError::InvalidAppKey);
        },
        Some(k) => k,
    };
    if !verify_secret(&key, &store.oauth_apps[ai].key) {
        return Err(OAuthError::InvalidAppKey);
    }
    let n = store.users.len();
    let mut list: Vec<usize> = Vec::new();
    let mut i: usize = 0;
    while i < n
        invariant
            0 <= i <= n,
            n == store.users@.len(),
            forall|k: int|
                0 <= k < list@.len() ==> (#[trigger] list@[k]) < n && spec_contains_bytes(
                    store.users@[list@[k] as int].apps_to_delete_data@,
                    aid@,
                ),
            forall|j: int|
                0 <= j < i && spec_contains_bytes(
                    (#[trigger] store.users@[j]).apps_to_delete_data@,
                    aid@,
                ) ==> exists|k: int| 0 <= k < list@.len() && list@[k] == j,
        decreases n - i,
    {
        if contains_bytes(&store.users[i].apps_to_delete_data, &aid) {
            let ghost pre = list@;
            list.push(i);
            proof {
                assert(list@[list@.len() - 1] == i);
                assert forall|j: int|
                    0 <= j < i + 1 && spec_contains_bytes(
                        (#[trigger] store.users@[j]).apps_to_delete_data@,
                        aid@,
                    ) implies exists|k: int| 0 <= k < list@.len() && list@[k] == j by {
                    if j < i {
                        let k0 = choose|k0: int| 0 <= k0 < pre.len() && pre[k0] == j;
                        assert(list@[k0] == j);
                    } else {
                        assert(list@[list@.len() - 1] == j);
                    }
                }
            }
        }
        i += 1;
    }
    Ok(list)
}

} // verus!
