//! The OAuth2 authority: authorization codes, token exchange with
//! refresh rotation, bearer-token resolution and application management.

use vstd::prelude::*;

use crate::bytes::{bytes_clone, bytes_concat, bytes_eq, contains_bytes, spec_contains_bytes};
use crate::crypto::{hash_matches, hash_secret, random_token, verify_secret};
use crate::errors::ResolveError;
use crate::model::{is_object_id, now_ok, OAuthApplication, OAuthCode, OAuthSession, User};
use crate::store::{
    app_id_key, code_id_key, find_by, grant_id_key, lemma_find_by_properties, user_id_key, Store,
};
use crate::token::{parse_token, spec_token_id, spec_token_secret, spec_token_wf, TOKEN_SECRET_LEN};

verus! {

/// `"Bearer "`, the prefix of an authorization header.
pub open spec fn spec_bearer_prefix() -> Seq<u8> {
    seq![0x42u8, 0x65, 0x61, 0x72, 0x65, 0x72, 0x20]
}

/// `"identify"`, the one scope of the deployment's allow-list.
pub open spec fn spec_scope_identify() -> Seq<u8> {
    seq![0x69u8, 0x64, 0x65, 0x6e, 0x74, 0x69, 0x66, 0x79]
}

/// The scope allow-list: a requested scope must be on it.
pub open spec fn spec_scope_allowed(s: Seq<u8>) -> bool {
    s == spec_scope_identify()
}

/// The byte vector `"identify"`.
pub fn scope_identify_bytes() -> (r: Vec<u8>)
    ensures
        r@ == spec_scope_identify(),
{
    let mut v: Vec<u8> = Vec::new();
    v.push(0x69);
    v.push(0x64);
    v.push(0x65);
    v.push(0x6e);
    v.push(0x74);
    v.push(0x69);
    v.push(0x66);
    v.push(0x79);
    proof {
        assert(v@ =~= spec_scope_identify());
    }
    v
}

/// Strip `"Bearer "` from an authorization header.
pub(crate) fn strip_bearer(auth: &Vec<u8>) -> (r: Option<Vec<u8>>)
    ensures
        r is Some <==> auth@.len() >= 7 && auth@.subrange(0, 7) == spec_bearer_prefix(),
        r matches Some(rest) ==> rest@ == auth@.skip(7),
{
    if auth.len() < 7 {
        return None;
    }
    let p0 = auth[0];
    let p1 = auth[1];
    let p2 = auth[2];
    let p3 = auth[3];
    let p4 = auth[4];
    let p5 = auth[5];
    let p6 = auth[6];
    if !(p0 == 0x42 && p1 == 0x65 && p2 == 0x61 && p3 == 0x72 && p4 == 0x65 && p5 == 0x72 && p6
        == 0x20) {
        proof {
            if auth@.subrange(0, 7) =~= spec_bearer_prefix() {
                assert(auth@[0] == 0x42 && auth@[1] == 0x65 && auth@[2] == 0x61 && auth@[3] == 0x72
                    && auth@[4] == 0x65 && auth@[5] == 0x72 && auth@[6] == 0x20);
            }
        }
        return None;
    }
    let rest = crate::bytes::bytes_range(auth, 7, auth.len());
    proof {
        assert(auth@.subrange(0, 7) =~= spec_bearer_prefix());
        assert(rest@ =~= auth@.skip(7));
    }
    Some(rest)
}

/// An access-grant row survives when it is not a row of this user for
/// this application.
pub open spec fn keep_grant(g: OAuthSession, uid: Seq<u8>, app: Seq<u8>) -> bool {
    !(g.user_id@ == uid && g.app_id@ == app)
}

/// Drop every grant of `uid` for `app`.
pub open spec fn purge_grants(grants: Seq<OAuthSession>, uid: Seq<u8>, app: Seq<u8>) -> Seq<
    OAuthSession,
>
    decreases grants.len(),
{
    if grants.len() == 0 {
        grants
    } else {
        let rest = purge_grants(grants.drop_first(), uid, app);
        if keep_grant(grants[0], uid, app) {
            seq![grants[0]] + rest
        } else {
            rest
        }
    }
}

/// Every row the grant purge keeps was already present and is kept by
/// [`keep_grant`].
pub proof fn lemma_purge_grants(grants: Seq<OAuthSession>, uid: Seq<u8>, app: Seq<u8>)
    ensures
        purge_grants(grants, uid, app).len() <= grants.len(),
        forall|k: int|
            0 <= k < purge_grants(grants, uid, app).len() ==> grants.contains(
                #[trigger] purge_grants(grants, uid, app)[k],
            ),
        forall|k: int|
            0 <= k < purge_grants(grants, uid, app).len() ==> keep_grant(
                #[trigger] purge_grants(grants, uid, app)[k],
                uid,
                app,
            ),
    decreases grants.len(),
{
    if grants.len() != 0 {
        lemma_purge_grants(grants.drop_first(), uid, app);
        let rest = purge_grants(grants.drop_first(), uid, app);
        assert forall|k: int| 0 <= k < rest.len() implies grants.contains(rest[k]) by {
            assert(grants.drop_first().contains(rest[k]));
            let j = choose|j: int|
                0 <= j < grants.drop_first().len() && grants.drop_first()[j] == rest[k];
            assert(grants[j + 1] == rest[k]);
        }
        if keep_grant(grants[0], uid, app) {
            let out = seq![grants[0]] + rest;
            assert(grants.contains(grants[0]));
            assert forall|k: int| 0 <= k < out.len() implies grants.contains(out[k])
                && keep_grant(out[k], uid, app) by {
                if k == 0 {
                    assert(out[0] == grants[0]);
                } else {
                    assert(out[k] == rest[k - 1]);
                }
            }
        }
    }
}

/// A code row survives when it is not a row of this user for this
/// application.
pub open spec fn keep_code(c: OAuthCode, uid: Seq<u8>, app: Seq<u8>) -> bool {
    !(c.user_id@ == uid && c.app@ == app)
}

/// Drop every code of `uid` for `app`.
pub open spec fn purge_codes(codes: Seq<OAuthCode>, uid: Seq<u8>, app: Seq<u8>) -> Seq<OAuthCode>
    decreases codes.len(),
{
    if codes.len() == 0 {
        codes
    } else {
        let rest = purge_codes(codes.drop_first(), uid, app);
        if keep_code(codes[0], uid, app) {
            seq![codes[0]] + rest
        } else {
            rest
        }
    }
}

/// Every row the code purge keeps was already present.
pub proof fn lemma_purge_codes(codes: Seq<OAuthCode>, uid: Seq<u8>, app: Seq<u8>)
    ensures
        purge_codes(codes, uid, app).len() <= codes.len(),
        forall|k: int|
            0 <= k < purge_codes(codes, uid, app).len() ==> codes.contains(
                #[trigger] purge_codes(codes, uid, app)[k],
            ),
        forall|k: int|
            0 <= k < purge_codes(codes, uid, app).len() ==> keep_code(
                #[trigger] purge_codes(codes, uid, app)[k],
                uid,
                app,
            ),
    decreases codes.len(),
{
    if codes.len() != 0 {
        lemma_purge_codes(codes.drop_first(), uid, app);
        let rest = purge_codes(codes.drop_first(), uid, app);
        assert forall|k: int| 0 <= k < rest.len() implies codes.contains(rest[k]) by {
            assert(codes.drop_first().contains(rest[k]));
            let j = choose|j: int|
                0 <= j < codes.drop_first().len() && codes.drop_first()[j] == rest[k];
            assert(codes[j + 1] == rest[k]);
        }
        if keep_code(codes[0], uid, app) {
            let out = seq![codes[0]] + rest;
            assert(codes.contains(codes[0]));
            assert forall|k: int| 0 <= k < out.len() implies codes.contains(out[k]) && keep_code(
                out[k],
                uid,
                app,
            ) by {
                if k == 0 {
                    assert(out[0] == codes[0]);
                } else {
                    assert(out[k] == rest[k - 1]);
                }
            }
        }
    }
}

impl Store {
    /// Remove every access grant of `uid` for `app`.
    pub(crate) fn purge_grant_rows(&mut self, uid: &Vec<u8>, app: &Vec<u8>)
        ensures
            final(self).oauth_sessions@ == purge_grants(old(self).oauth_sessions@, uid@, app@),
            final(self).users@ == old(self).users@,
            final(self).sessions@ == old(self).sessions@,
            final(self).oauth_apps@ == old(self).oauth_apps@,
            final(self).oauth_codes@ == old(self).oauth_codes@,
    {
        let ghost orig = self.oauth_sessions@;
        let n = self.oauth_sessions.len();
        let mut kept: Vec<OAuthSession> = Vec::new();
        let mut i: usize = 0;
        proof {
            assert(self.oauth_sessions@ =~= orig.skip(0));
        }
        while i < n
            invariant
                n == orig.len(),
                0 <= i <= n,
                self.oauth_sessions@ == orig.skip(i as int),
                self.users@ == old(self).users@,
                self.sessions@ == old(self).sessions@,
                self.oauth_apps@ == old(self).oauth_apps@,
                self.oauth_codes@ == old(self).oauth_codes@,
                purge_grants(orig, uid@, app@) == kept@ + purge_grants(
                    orig.skip(i as int),
                    uid@,
                    app@,
                ),
            decreases n - i,
        {
            let ghost tail = orig.skip(i as int);
            let row = self.oauth_sessions.remove(0);
            proof {
                assert(row == orig[i as int]);
                assert(self.oauth_sessions@ =~= orig.skip(i as int + 1));
                assert(tail[0] == orig[i as int]);
                assert(tail.drop_first() =~= orig.skip(i as int + 1));
            }
            let keep = !(bytes_eq(&row.user_id, uid) && bytes_eq(&row.app_id, app));
            proof {
                assert(keep == keep_grant(orig[i as int], uid@, app@));
                if keep {
                    assert(purge_grants(tail, uid@, app@) =~= seq![orig[i as int]] + purge_grants(
                        orig.skip(i as int + 1),
                        uid@,
                        app@,
                    ));
                    assert((kept@ + purge_grants(tail, uid@, app@)) =~= (kept@.push(
                        orig[i as int],
                    ) + purge_grants(orig.skip(i as int + 1), uid@, app@)));
                } else {
                    assert(purge_grants(tail, uid@, app@) =~= purge_grants(
                        orig.skip(i as int + 1),
                        uid@,
                        app@,
                    ));
                }
            }
            if keep {
                kept.push(row);
            }
            i += 1;
        }
        proof {
            assert(orig.skip(n as int).len() == 0);
            assert(purge_grants(orig, uid@, app@) =~= kept@);
        }
        self.oauth_sessions = kept;
    }

    /// Remove every code of `uid` for `app`.
    fn purge_code_rows(&mut self, uid: &Vec<u8>, app: &Vec<u8>)
        ensures
            final(self).oauth_codes@ == purge_codes(old(self).oauth_codes@, uid@, app@),
            final(self).users@ == old(self).users@,
            final(self).sessions@ == old(self).sessions@,
            final(self).oauth_apps@ == old(self).oauth_apps@,
            final(self).oauth_sessions@ == old(self).oauth_sessions@,
    {
        let ghost orig = self.oauth_codes@;
        let n = self.oauth_codes.len();
        let mut kept: Vec<OAuthCode> = Vec::new();
        let mut i: usize = 0;
        proof {
            assert(self.oauth_codes@ =~= orig.skip(0));
        }
        while i < n
            invariant
                n == orig.len(),
                0 <= i <= n,
                self.oauth_codes@ == orig.skip(i as int),
                self.users@ == old(self).users@,
                self.sessions@ == old(self).sessions@,
                self.oauth_apps@ == old(self).oauth_apps@,
                self.oauth_sessions@ == old(self).oauth_sessions@,
                purge_codes(orig, uid@, app@) == kept@ + purge_codes(
                    orig.skip(i as int),
                    uid@,
                    app@,
                ),
            decreases n - i,
        {
            let ghost tail = orig.skip(i as int);
            let row = self.oauth_codes.remove(0);
            proof {
                assert(row == orig[i as int]);
                assert(self.oauth_codes@ =~= orig.skip(i as int + 1));
                assert(tail[0] == orig[i as int]);
                assert(tail.drop_first() =~= orig.skip(i as int + 1));
            }
            let keep = !(bytes_eq(&row.user_id, uid) && bytes_eq(&row.app, app));
            proof {
                assert(keep == keep_code(orig[i as int], uid@, app@));
                if keep {
                    assert(purge_codes(tail, uid@, app@) =~= seq![orig[i as int]] + purge_codes(
                        orig.skip(i as int + 1),
                        uid@,
                        app@,
                    ));
                    assert((kept@ + purge_codes(tail, uid@, app@)) =~= (kept@.push(orig[i as int])
                        + purge_codes(orig.skip(i as int + 1), uid@, app@)));
                } else {
                    assert(purge_codes(tail, uid@, app@) =~= purge_codes(
                        orig.skip(i as int + 1),
                        uid@,
                        app@,
                    ));
                }
            }
            if keep {
                kept.push(row);
            }
            i += 1;
        }
        proof {
            assert(orig.skip(n as int).len() == 0);
            assert(purge_codes(orig, uid@, app@) =~= kept@);
        }
        self.oauth_codes = kept;
    }
}

/// Resolve a bearer access token into the owning user, demanding `scope`
/// among the grant's scopes. An expired grant, or one whose user row is
/// gone, is removed as a side effect of the read.
pub fn identify_oauth(store: &mut Store, auth: &Vec<u8>, scope: &Vec<u8>, now: i64) -> (r: Result<
    usize,
    ResolveError,
>)
    requires
        old(store).wf(),
    ensures
        final(store).wf(),
        final(store).users@ == old(store).users@,
        final(store).sessions@ == old(store).sessions@,
        final(store).oauth_apps@ == old(store).oauth_apps@,
        final(store).oauth_codes@ == old(store).oauth_codes@,
        ({
            let bearer_ok = auth@.len() >= 7 && auth@.subrange(0, 7) == spec_bearer_prefix();
            let tok = auth@.skip(7);
            &&& (!bearer_ok || !spec_token_wf(tok) ==> r == Err::<usize, ResolveError>(
                ResolveError::Malformed,
            ) && final(store).oauth_sessions@ == old(store).oauth_sessions@)
            &&& (bearer_ok && spec_token_wf(tok) ==> {
                let gid = spec_token_id(tok);
                let secret = spec_token_secret(tok);
                match find_by(old(store).oauth_sessions@, grant_id_key(), gid) {
                    None => r == Err::<usize, ResolveError>(ResolveError::NotFound)
                        && final(store).oauth_sessions@ == old(store).oauth_sessions@,
                    Some(gi) => {
                        let g = old(store).oauth_sessions@[gi];
                        if g.expires_on < now {
                            &&& r == Err::<usize, ResolveError>(ResolveError::Expired)
                            &&& final(store).oauth_sessions@ == old(store).oauth_sessions@.remove(
                                gi,
                            )
                        } else if !hash_matches(g.token@, secret) {
                            &&& r == Err::<usize, ResolveError>(ResolveError::SecretMismatch)
                            &&& final(store).oauth_sessions@ == old(store).oauth_sessions@
                        } else if !spec_contains_bytes(g.scopes@, scope@) {
                            &&& r == Err::<usize, ResolveError>(ResolveError::ScopeMissing)
                            &&& final(store).oauth_sessions@ == old(store).oauth_sessions@
                        } else {
                            match find_by(old(store).users@, user_id_key(), g.user_id@) {
                                None => {
                                    &&& r == Err::<usize, ResolveError>(ResolveError::NotFound)
                                    &&& final(store).oauth_sessions@ == old(
                                        store).oauth_sessions@.remove(gi)
                                },
                                Some(ui) => {
                                    &&& r == Ok::<usize, ResolveError>(ui as usize)
                                    &&& ui < final(store).users@.len()
                                    &&& final(store).oauth_sessions@ == old(
                                        store).oauth_sessions@
                                },
                            }
                        }
                    },
                }
            })
        }),
{
    let rest = match strip_bearer(auth) {
        None => {
            return Err(ResolveError::Malformed);
        },
        Some(rest) => rest,
    };
    let (gid, secret) = match parse_token(&rest) {
        None => {
            return Err(ResolveError::Malformed);
        },
        Some(p) => p,
    };
    let gi = match store.grant_idx_by_id(&gid) {
        None => {
            proof {
                lemma_find_by_properties(store.oauth_sessions@, grant_id_key(), gid@);
            }
            return Err(ResolveError::NotFound);
        },
        Some(gi) => gi,
    };
    proof {
        lemma_find_by_properties(store.oauth_sessions@, grant_id_key(), gid@);
    }
    if store.oauth_sessions[gi].expires_on < now {
        store.oauth_sessions.remove(gi);
        proof {
            assert forall|k: int|
                0 <= k < store.oauth_sessions@.len() implies (#[trigger] store.oauth_sessions@[
            k]).wf() by {
                if k < gi as int {
                    assert(store.oauth_sessions@[k] == old(store).oauth_sessions@[k]);
                } else {
                    assert(store.oauth_sessions@[k] == old(store).oauth_sessions@[k + 1]);
                }
            }
        }
        return Err(ResolveError::Expired);
    }
    if !verify_secret(&secret, &store.oauth_sessions[gi].token) {
        return Err(ResolveError::SecretMismatch);
    }
    if !contains_bytes(&store.oauth_sessions[gi].scopes, scope) {
        return Err(ResolveError::ScopeMissing);
    }
    let uid = bytes_clone(&store.oauth_sessions[gi].user_id);
    match store.user_idx_by_id(&uid) {
        None => {
            proof {
                lemma_find_by_properties(store.users@, user_id_key(), uid@);
            }
            store.oauth_sessions.remove(gi);
            proof {
                assert forall|k: int|
                    0 <= k < store.oauth_sessions@.len() implies (#[trigger] store
                    .oauth_sessions@[k]).wf() by {
                    if k < gi as int {
                        assert(store.oauth_sessions@[k] == old(store).oauth_sessions@[k]);
                    } else {
                        assert(store.oauth_sessions@[k] == old(store).oauth_sessions@[k + 1]);
                    }
                }
            }
            Err(ResolveError::NotFound)
        },
        Some(ui) => {
            proof {
                lemma_find_by_properties(store.users@, user_id_key(), uid@);
            }
            Ok(ui)
        },
    }
}

/// Failures of the OAuth surface. An unknown application, a redirect
/// not in its registered set, and every defect of the presented code
/// collapse to the same outward rejection.
#[derive(Clone, Copy, Debug, PartialEq, Eq, Structural)]
pub enum OAuthError {
    /// The response type is not one the authority serves, or the
    /// application may not skip consent.
    InvalidResponseType,
    /// The grant type is not one the authority serves, or does not fit
    /// the presented code.
    InvalidGrantType,
    /// No application row carries the given client id.
    InvalidApp,
    /// The redirect URI is not registered for the application.
    InvalidRedirect,
    /// The bot-gate was not passed.
    InvalidCaptcha,
    /// A requested scope is not on the allow-list.
    InvalidScopes,
    /// The application's secret did not verify.
    InvalidAppKey,
    /// The presented code is missing, expired, mismatched or unproven.
    InvalidOAuthCode,
    /// A freshly drawn row identifier collided with an existing row.
    Internal,
}

/// `"code"`.
pub open spec fn spec_rt_code() -> Seq<u8> {
    seq![0x63u8, 0x6f, 0x64, 0x65]
}

/// `"code_skip"`.
pub open spec fn spec_rt_code_skip() -> Seq<u8> {
    seq![0x63u8, 0x6f, 0x64, 0x65, 0x5f, 0x73, 0x6b, 0x69, 0x70]
}

/// `"authorization_code"`.
pub open spec fn spec_gt_authorization_code() -> Seq<u8> {
    seq![
        0x61u8,
        0x75,
        0x74,
        0x68,
        0x6f,
        0x72,
        0x69,
        0x7a,
        0x61,
        0x74,
        0x69,
        0x6f,
        0x6e,
        0x5f,
        0x63,
        0x6f,
        0x64,
        0x65,
    ]
}

/// `"refresh_token"`.
pub open spec fn spec_gt_refresh_token() -> Seq<u8> {
    seq![0x72u8, 0x65, 0x66, 0x72, 0x65, 0x73, 0x68, 0x5f, 0x74, 0x6f, 0x6b, 0x65, 0x6e]
}

fn rt_code_bytes() -> (r: Vec<u8>)
    ensures
        r@ == spec_rt_code(),
{
    let mut v: Vec<u8> = Vec::new();
    v.push(0x63);
    v.push(0x6f);
    v.push(0x64);
    v.push(0x65);
    proof {
        assert(v@ =~= spec_rt_code());
    }
    v
}

fn rt_code_skip_bytes() -> (r: Vec<u8>)
    ensures
        r@ == spec_rt_code_skip(),
{
    let mut v = rt_code_bytes();
    v.push(0x5f);
    v.push(0x73);
    v.push(0x6b);
    v.push(0x69);
    v.push(0x70);
    proof {
        assert(v@ =~= spec_rt_code_skip());
    }
    v
}

fn gt_authorization_code_bytes() -> (r: Vec<u8>)
    ensures
        r@ == spec_gt_authorization_code(),
{
    let mut v: Vec<u8> = Vec::new();
    v.push(0x61);
    v.push(0x75);
    v.push(0x74);
    v.push(0x68);
    v.push(0x6f);
    v.push(0x72);
    v.push(0x69);
    v.push(0x7a);
    v.push(0x61);
    v.push(0x74);
    v.push(0x69);
    v.push(0x6f);
    v.push(0x6e);
    v.push(0x5f);
    v.push(0x63);
    v.push(0x6f);
    v.push(0x64);
    v.push(0x65);
    proof {
        assert(v@ =~= spec_gt_authorization_code());
    }
    v
}

fn gt_refresh_token_bytes() -> (r: Vec<u8>)
    ensures
        r@ == spec_gt_refresh_token(),
{
    let mut v: Vec<u8> = Vec::new();
    v.push(0x72);
    v.push(0x65);
    v.push(0x66);
    v.push(0x72);
    v.push(0x65);
    v.push(0x73);
    v.push(0x68);
    v.push(0x5f);
    v.push(0x74);
    v.push(0x6f);
    v.push(0x6b);
    v.push(0x65);
    v.push(0x6e);
    proof {
        assert(v@ =~= spec_gt_refresh_token());
    }
    v
}

/// Whether every requested scope is on the allow-list.
fn scopes_allowed(parts: &Vec<Vec<u8>>) -> (r: bool)
    ensures
        r == (forall|i: int| 0 <= i < parts@.len() ==> spec_scope_allowed(#[trigger] parts@[i]@)),
{
    let allowed = scope_identify_bytes();
    let n = parts.len();
    let mut i: usize = 0;
    while i < n
        invariant
            0 <= i <= n,
            n == parts@.len(),
            allowed@ == spec_scope_identify(),
            forall|j: int| 0 <= j < i ==> spec_scope_allowed(#[trigger] parts@[j]@),
        decreases n - i,
    {
        if !bytes_eq(&parts[i], &allowed) {
            proof {
                assert(!spec_scope_allowed(parts@[i as int]@));
            }
            return false;
        }
        i += 1;
    }
    true
}

/// How long an authorization code lives, in seconds.
pub const CODE_TTL: i64 = 60;

/// How long an access grant lives, in seconds (one month).
pub const ACCESS_TTL: i64 = 2629800;

/// How long a refresh code lives, in seconds (one year).
pub const REFRESH_TTL: i64 = 31557600;

/// What a granted authorization hands back: the single-use code in
/// transport form.
#[derive(Debug)]
pub struct AuthorizeSuccess {
    pub code: Vec<u8>,
}

/// Authorize an application for a user: validates the response type, the
/// application, its redirect URI, the bot-gate (unless the application
/// may skip consent) and the requested scopes; then replaces any live
/// code pair of this (user, application) with one fresh single-use
/// authorization code, and records the application in the user's
/// authorized set.
pub fn authorize(
    store: &mut Store,
    ui: usize,
    response_type: &Vec<u8>,
    client_id: &Vec<u8>,
    redirect_uri: &Vec<u8>,
    scope: &Vec<u8>,
    captcha_ok: bool,
    now: i64,
) -> (r: Result<AuthorizeSuccess, OAuthError>)
    requires
        old(store).wf(),
        ui < old(store).users@.len(),
        now_ok(now),
    ensures
        final(store).wf(),
        final(store).sessions@ == old(store).sessions@,
        final(store).oauth_apps@ == old(store).oauth_apps@,
        final(store).oauth_sessions@ == old(store).oauth_sessions@,
        ({
            let rt_code = response_type@ == spec_rt_code();
            let rt_skip = response_type@ == spec_rt_code_skip();
            let parsed = crate::token::spec_parse_id(client_id@);
            let scopes = crate::bytes::spec_split(scope@, 0x2c);
            let app_found = parsed is Some && find_by(
                old(store).oauth_apps@,
                app_id_key(),
                parsed->0,
            ) is Some;
            let app = old(store).oauth_apps@[find_by(
                old(store).oauth_apps@,
                app_id_key(),
                parsed->0,
            )->0];
            let redirect_in = app_found && spec_contains_bytes(
                app.redirect_uris@,
                redirect_uri@,
            );
            let gate_ok = (rt_code && captcha_ok) || (rt_skip && app_found && app.allow_skip);
            let scopes_ok = forall|i: int|
                0 <= i < scopes.len() ==> spec_scope_allowed(#[trigger] scopes[i]);
            &&& (r == Err::<AuthorizeSuccess, OAuthError>(OAuthError::InvalidApp) <==> (rt_code
                || rt_skip) && !app_found)
            &&& (r == Err::<AuthorizeSuccess, OAuthError>(OAuthError::InvalidRedirect) <==> (
            rt_code || rt_skip) && app_found && !redirect_in)
            &&& ((rt_code || rt_skip) && redirect_in && gate_ok && scopes_ok ==> r is Ok || r
                == Err::<AuthorizeSuccess, OAuthError>(OAuthError::Internal))
            &&& (r == Err::<AuthorizeSuccess, OAuthError>(OAuthError::Internal) ==> (rt_code
                || rt_skip) && redirect_in && gate_ok && scopes_ok)
            &&& (r == Err::<AuthorizeSuccess, OAuthError>(OAuthError::InvalidResponseType)
                <==> !rt_code && !rt_skip || (rt_skip && (parsed matches Some(aid) && (
            find_by(old(store).oauth_apps@, app_id_key(), aid) matches Some(ai) && (
            spec_contains_bytes(
                old(store).oauth_apps@[ai].redirect_uris@,
                redirect_uri@,
            ) && !old(store).oauth_apps@[ai].allow_skip)))))
            &&& ((rt_code || rt_skip) && (parsed is None || find_by(
                old(store).oauth_apps@,
                app_id_key(),
                parsed->0,
            ) is None) ==> r == Err::<AuthorizeSuccess, OAuthError>(OAuthError::InvalidApp))
            &&& ((rt_code || rt_skip) ==> (parsed matches Some(aid) ==> (find_by(
                old(store).oauth_apps@,
                app_id_key(),
                aid,
            ) matches Some(ai) ==> {
                let app = old(store).oauth_apps@[ai];
                let uid = old(store).users@[ui as int].id@;
                &&& (!spec_contains_bytes(app.redirect_uris@, redirect_uri@) ==> r == Err::<
                    AuthorizeSuccess,
                    OAuthError,
                >(OAuthError::InvalidRedirect))
                &&& (spec_contains_bytes(app.redirect_uris@, redirect_uri@) ==> {
                    &&& (r == Err::<AuthorizeSuccess, OAuthError>(OAuthError::InvalidCaptcha)
                        <==> rt_code && !captcha_ok)
                    &&& (r == Err::<AuthorizeSuccess, OAuthError>(OAuthError::InvalidScopes)
                        <==> (rt_skip && app.allow_skip || rt_code && captcha_ok) && (exists|i: int|
                        0 <= i < scopes.len() && !spec_scope_allowed(#[trigger] scopes[i])))
                    &&& (r matches Ok(s) ==> {
                        let purged = purge_codes(old(store).oauth_codes@, uid, aid);
                        let row = final(store).oauth_codes@.last();
                        &&& (rt_skip && app.allow_skip) || (rt_code && captcha_ok)
                        &&& (forall|i: int|
                            0 <= i < scopes.len() ==> spec_scope_allowed(#[trigger] scopes[i]))
                        &&& final(store).oauth_codes@ == purged.push(row)
                        &&& find_by(purged, code_id_key(), row.id@) is None
                        &&& row.app@ == aid
                        &&& row.user_id@ == uid
                        &&& row.redirect_uri@ == redirect_uri@
                        &&& row.refresh == false
                        &&& row.created_on == now
                        &&& row.expires_on == now + CODE_TTL
                        &&& row.scopes@.len() == scopes.len()
                        &&& (forall|i: int|
                            0 <= i < scopes.len() ==> (#[trigger] row.scopes@[i])@ == scopes[i])
                        &&& s.code@.len() == 88
                        &&& s.code@.subrange(0, 24) == row.id@
                        &&& s.code@.subrange(24, 88).len() == 64
                        &&& hash_matches(row.token@, s.code@.subrange(24, 88))
                        &&& (spec_contains_bytes(old(store).users@[ui as int].allowed_apps@, aid)
                            ==> final(store).users@ == old(store).users@)
                        &&& (!spec_contains_bytes(old(store).users@[ui as int].allowed_apps@, aid)
                            ==> {
                            let u1 = final(store).users@[ui as int];
                            &&& final(store).users@ == old(store).users@.update(ui as int, u1)
                            &&& u1 == User { allowed_apps: u1.allowed_apps, ..old(
                                store).users@[ui as int] }
                            &&& u1.allowed_apps@ == old(
                                store).users@[ui as int].allowed_apps@.push(
                                u1.allowed_apps@.last(),
                            )
                            &&& u1.allowed_apps@.last()@ == aid
                        })
                    })
                })
            })))
            &&& (r is Err ==> final(store).users@ == old(store).users@
                && final(store).oauth_codes@ == old(store).oauth_codes@)
        }),
{
    let rt_code = bytes_eq(response_type, &rt_code_bytes());
    let rt_skip = bytes_eq(response_type, &rt_code_skip_bytes());
    if !rt_code && !rt_skip {
        return Err(OAuthError::InvalidResponseType);
    }
    let aid = match crate::token::parse_id(client_id) {
        None => {
            return Err(OAuthError::InvalidApp);
        },
        Some(aid) => aid,
    };
    let ai = match store.app_idx_by_id(&aid) {
        None => {
            proof {
                lemma_find_by_properties(store.oauth_apps@, app_id_key(), aid@);
            }
            return Err(OAuthError::InvalidApp);
        },
        Some(ai) => ai,
    };
    proof {
        lemma_find_by_properties(store.oauth_apps@, app_id_key(), aid@);
    }
    if !contains_bytes(&store.oauth_apps[ai].redirect_uris, redirect_uri) {
        return Err(OAuthError::InvalidRedirect);
    }
    if rt_skip {
        if !store.oauth_apps[ai].allow_skip {
            return Err(OAuthError::InvalidResponseType);
        }
    } else {
        if !captcha_ok {
            return Err(OAuthError::InvalidCaptcha);
        }
    }
    let scopes = crate::bytes::split_bytes(scope, 0x2c);
    let scopes_ok = scopes_allowed(&scopes);
    proof {
        assert forall|i: int|
            0 <= i < scopes@.len() implies (spec_scope_allowed(
            #[trigger] crate::bytes::spec_split(scope@, 0x2c)[i]) == spec_scope_allowed(
            scopes@[i]@)) by {
            assert(scopes@[i]@ == crate::bytes::spec_split(scope@, 0x2c)[i]);
        }
    }
    if !scopes_ok {
        return Err(OAuthError::InvalidScopes);
    }
    let cid = crate::crypto::fresh_id();
    if store.code_idx_by_id(&cid).is_some() {
        return Err(OAuthError::Internal);
    }
    proof {
        lemma_find_by_properties(store.oauth_codes@, code_id_key(), cid@);
    }
    let secret = random_token(TOKEN_SECRET_LEN);
    let token_hash = hash_secret(&secret);
    let uid = bytes_clone(&store.users[ui].id);
    let ghost scopes_spec = crate::bytes::spec_split(scope@, 0x2c);
    let row = OAuthCode {
        id: cid,
        token: token_hash,
        app: bytes_clone(&aid),
        redirect_uri: bytes_clone(redirect_uri),
        created_on: now,
        expires_on: now + CODE_TTL,
        refresh: false,
        user_id: bytes_clone(&uid),
        scopes,
    };
    let code_token = bytes_concat(&row.id, &secret);
    store.purge_code_rows(&uid, &aid);
    proof {
        lemma_purge_codes(old(store).oauth_codes@, uid@, aid@);
        assert forall|k: int|
            0 <= k < store.oauth_codes@.len() implies (#[trigger] store.oauth_codes@[k]).wf() by {
            assert(old(store).oauth_codes@.contains(store.oauth_codes@[k]));
            let j = choose|j: int|
                0 <= j < old(store).oauth_codes@.len() && old(store).oauth_codes@[j]
                    == store.oauth_codes@[k];
            assert(old(store).oauth_codes@[j].wf());
        }
        assert(find_by(store.oauth_codes@, code_id_key(), row.id@) is None) by {
            lemma_find_by_properties(store.oauth_codes@, code_id_key(), row.id@);
            match find_by(store.oauth_codes@, code_id_key(), row.id@) {
                Some(x) => {
                    assert(old(store).oauth_codes@.contains(store.oauth_codes@[x]));
                    let j = choose|j: int|
                        0 <= j < old(store).oauth_codes@.len() && old(store).oauth_codes@[j]
                            == store.oauth_codes@[x];
                    assert(code_id_key()(old(store).oauth_codes@[j]) != row.id@);
                },
                None => {},
            }
        }
    }
    store.oauth_codes.push(row);
    proof {
        assert(store.oauth_codes@.last() == store.oauth_codes@[store.oauth_codes@.len() - 1]);
        assert(code_token@.subrange(0, 24) =~= store.oauth_codes@.last().id@);
        assert(code_token@.subrange(24, 88) =~= secret@);
        assert forall|k: int|
            0 <= k < store.oauth_codes@.len() implies (#[trigger] store.oauth_codes@[k]).wf() by {
            if k < store.oauth_codes@.len() - 1 {
            }
        }
    }
    if !contains_bytes(&store.users[ui].allowed_apps, &aid) {
        let mut u = store.users.remove(ui);
        u.allowed_apps.push(aid);
        store.users.insert(ui, u);
        proof {
            assert(store.users@ =~= old(store).users@.update(ui as int, store.users@[ui as int]));
            assert forall|k: int|
                0 <= k < store.users@.len() implies (#[trigger] store.users@[k]).wf() by {
                if k != ui as int {
                    assert(store.users@[k] == old(store).users@[k]);
                }
            }
        }
    } else {
        proof {
            assert(store.users@ =~= old(store).users@);
        }
    }
    Ok(AuthorizeSuccess { code: code_token })
}

/// What a successful exchange hands back: the access token, the rotated
/// refresh token, and the access grant's lifetime.
#[derive(Debug)]
pub struct ExchangeSuccess {
    pub access_token: Vec<u8>,
    pub refresh_token: Vec<u8>,
    pub expires_in: i64,
}

/// Exchange an authorization or refresh code for an access grant.
///
/// The application authenticates with its secret; the code must exist,
/// be unexpired, fit the grant type, and match the redirect URI and
/// client that it was issued for, and its secret half must verify. A
/// code already consumed (its row is gone), a mismatched redirect URI
/// and a mismatched client are all rejected with the same code error.
/// Success replaces the (user, application) pair's live grant and code
/// with a fresh access grant and a fresh single-use refresh code.
pub fn exchange_token(
    store: &mut Store,
    grant_type: &Vec<u8>,
    client_id: &Vec<u8>,
    redirect_uri: &Vec<u8>,
    code: &Vec<u8>,
    auth: &Vec<u8>,
    now: i64,
) -> (r: Result<ExchangeSuccess, OAuthError>)
    requires
        old(store).wf(),
        now_ok(now),
    ensures
        final(store).wf(),
        final(store).users@ == old(store).users@,
        final(store).sessions@ == old(store).sessions@,
        final(store).oauth_apps@ == old(store).oauth_apps@,
        ({
            let gt_code = grant_type@ == spec_gt_authorization_code();
            let gt_refresh = grant_type@ == spec_gt_refresh_token();
            let gt_ok = gt_code || gt_refresh;
            let parsed = crate::token::spec_parse_id(client_id@);
            let bearer_ok = auth@.len() >= 7 && auth@.subrange(0, 7) == spec_bearer_prefix();
            let app_found = parsed is Some && find_by(
                old(store).oauth_apps@,
                app_id_key(),
                parsed->0,
            ) is Some;
            let app = old(store).oauth_apps@[find_by(
                old(store).oauth_apps@,
                app_id_key(),
                parsed->0,
            )->0];
            let redirect_in = app_found && spec_contains_bytes(
                app.redirect_uris@,
                redirect_uri@,
            );
            let key_ok = bearer_ok && hash_matches(app.key@, auth@.skip(7));
            let cid = spec_token_id(code@);
            let cfound = spec_token_wf(code@) && find_by(
                old(store).oauth_codes@,
                code_id_key(),
                cid,
            ) is Some;
            let ci = find_by(old(store).oauth_codes@, code_id_key(), cid)->0;
            let crow = old(store).oauth_codes@[ci];
            let code_live = cfound && now <= crow.expires_on;
            let code_fits = crow.refresh == gt_refresh && crow.redirect_uri@ == redirect_uri@
                && crow.app@ == parsed->0 && hash_matches(crow.token@, spec_token_secret(code@));
            let valid_all = gt_ok && redirect_in && key_ok && code_live && code_fits;
            &&& (r == Err::<ExchangeSuccess, OAuthError>(OAuthError::InvalidApp) <==> gt_ok
                && !app_found)
            &&& (r == Err::<ExchangeSuccess, OAuthError>(OAuthError::InvalidRedirect) <==> gt_ok
                && app_found && !redirect_in)
            &&& (r == Err::<ExchangeSuccess, OAuthError>(OAuthError::InvalidAppKey) <==> gt_ok
                && redirect_in && !key_ok)
            &&& (valid_all ==> r is Ok || r == Err::<ExchangeSuccess, OAuthError>(
                OAuthError::Internal,
            ))
            &&& (r == Err::<ExchangeSuccess, OAuthError>(OAuthError::Internal) ==> valid_all)
            &&& (r is Err ==> final(store).oauth_codes@ == old(store).oauth_codes@ || (gt_ok
                && redirect_in && key_ok && cfound && crow.expires_on < now
                && final(store).oauth_codes@ == old(store).oauth_codes@.remove(ci)))
            &&& (!gt_code && !gt_refresh ==> r == Err::<ExchangeSuccess, OAuthError>(
                OAuthError::InvalidGrantType,
            ))
            &&& ((gt_code || gt_refresh) && (parsed is None || find_by(
                old(store).oauth_apps@,
                app_id_key(),
                parsed->0,
            ) is None) ==> r == Err::<ExchangeSuccess, OAuthError>(OAuthError::InvalidApp))
            &&& ((gt_code || gt_refresh) ==> (parsed matches Some(aid) ==> (find_by(
                old(store).oauth_apps@,
                app_id_key(),
                aid,
            ) matches Some(ai) ==> {
                let app = old(store).oauth_apps@[ai];
                &&& (!spec_contains_bytes(app.redirect_uris@, redirect_uri@) ==> r == Err::<
                    ExchangeSuccess,
                    OAuthError,
                >(OAuthError::InvalidRedirect))
                &&& (spec_contains_bytes(app.redirect_uris@, redirect_uri@) ==> {
                    &&& (!bearer_ok || !hash_matches(app.key@, auth@.skip(7)) ==> r == Err::<
                        ExchangeSuccess,
                        OAuthError,
                    >(OAuthError::InvalidAppKey))
                    &&& (bearer_ok && hash_matches(app.key@, auth@.skip(7)) ==> {
                        let cparsed = spec_token_wf(code@);
                        let cid = spec_token_id(code@);
                        let csecret = spec_token_secret(code@);
                        &&& (!cparsed ==> r == Err::<ExchangeSuccess, OAuthError>(
                            OAuthError::InvalidOAuthCode,
                        ))
                        &&& (cparsed ==> match find_by(
                            old(store).oauth_codes@,
                            code_id_key(),
                            cid,
                        ) {
                            None => r == Err::<ExchangeSuccess, OAuthError>(
                                OAuthError::InvalidOAuthCode,
                            ),
                            Some(ci) => {
                                let crow = old(store).oauth_codes@[ci];
                                if crow.expires_on < now {
                                    &&& r == Err::<ExchangeSuccess, OAuthError>(
                                        OAuthError::InvalidOAuthCode,
                                    )
                                    &&& final(store).oauth_codes@ == old(
                                        store).oauth_codes@.remove(ci)
                                } else if crow.refresh != gt_refresh {
                                    r == Err::<ExchangeSuccess, OAuthError>(
                                        OAuthError::InvalidGrantType,
                                    )
                                } else if crow.redirect_uri@ != redirect_uri@ || crow.app@
                                    != aid {
                                    r == Err::<ExchangeSuccess, OAuthError>(
                                        OAuthError::InvalidOAuthCode,
                                    )
                                } else if !hash_matches(crow.token@, csecret) {
                                    r == Err::<ExchangeSuccess, OAuthError>(
                                        OAuthError::InvalidOAuthCode,
                                    )
                                } else {
                                    r matches Ok(s) ==> {
                                        let purgedg = purge_grants(
                                            old(store).oauth_sessions@,
                                            crow.user_id@,
                                            aid,
                                        );
                                        let purgedc = purge_codes(
                                            old(store).oauth_codes@,
                                            crow.user_id@,
                                            aid,
                                        );
                                        let grant = final(store).oauth_sessions@.last();
                                        let rrow = final(store).oauth_codes@.last();
                                        &&& final(store).oauth_sessions@ == purgedg.push(grant)
                                        &&& final(store).oauth_codes@ == purgedc.push(rrow)
                                        &&& find_by(purgedg, grant_id_key(), grant.id@) is None
                                        &&& find_by(purgedc, code_id_key(), rrow.id@) is None
                                        &&& grant.app_id@ == aid
                                        &&& grant.app_name@ == app.name@
                                        &&& grant.user_id@ == crow.user_id@
                                        &&& grant.created_on == now
                                        &&& grant.expires_on == now + ACCESS_TTL
                                        &&& grant.scopes@.len() == crow.scopes@.len()
                                        &&& (forall|i: int|
                                            0 <= i < crow.scopes@.len() ==> (
                                            #[trigger] grant.scopes@[i])@ == crow.scopes@[i]@)
                                        &&& rrow.app@ == aid
                                        &&& rrow.user_id@ == crow.user_id@
                                        &&& rrow.redirect_uri@ == redirect_uri@
                                        &&& rrow.refresh == true
                                        &&& rrow.created_on == now
                                        &&& rrow.expires_on == now + REFRESH_TTL
                                        &&& rrow.scopes@.len() == crow.scopes@.len()
                                        &&& (forall|i: int|
                                            0 <= i < crow.scopes@.len() ==> (
                                            #[trigger] rrow.scopes@[i])@ == crow.scopes@[i]@)
                                        &&& s.access_token@.len() == 88
                                        &&& s.access_token@.subrange(0, 24) == grant.id@
                                        &&& hash_matches(
                                            grant.token@,
                                            s.access_token@.subrange(24, 88),
                                        )
                                        &&& s.refresh_token@.len() == 88
                                        &&& s.refresh_token@.subrange(0, 24) == rrow.id@
                                        &&& hash_matches(
                                            rrow.token@,
                                            s.refresh_token@.subrange(24, 88),
                                        )
                                        &&& s.expires_in == ACCESS_TTL
                                    }
                                }
                            },
                        })
                    })
                })
            })))
            &&& (r is Err && !(r == Err::<ExchangeSuccess, OAuthError>(
                OAuthError::InvalidOAuthCode,
            )) ==> final(store).oauth_codes@ == old(store).oauth_codes@)
            &&& (r is Err ==> final(store).oauth_sessions@ == old(store).oauth_sessions@)
        }),
{
    let gt_code = bytes_eq(grant_type, &gt_authorization_code_bytes());
    let gt_refresh = bytes_eq(grant_type, &gt_refresh_token_bytes());
    if !gt_code && !gt_refresh {
        return Err(OAuthError::InvalidGrantType);
    }
    let aid = match crate::token::parse_id(client_id) {
        None => {
            return Err(OAuthError::InvalidApp);
        },
        Some(aid) => aid,
    };
    let ai = match store.app_idx_by_id(&aid) {
        None => {
            proof {
                lemma_find_by_properties(store.oauth_apps@, app_id_key(), aid@);
            }
            return Err(OAuthError::InvalidApp);
        },
        Some(ai) => ai,
    };
    proof {
        lemma_find_by_properties(store.oauth_apps@, app_id_key(), aid@);
    }
    if !contains_bytes(&store.oauth_apps[ai].redirect_uris, redirect_uri) {
        return Err(OAuthError::InvalidRedirect);
    }
    let key = match strip_bearer(auth) {
        None => {
            return Err(OAuthError::InvalidAppKey);
        },
        Some(k) => k,
    };
    if !verify_secret(&key, &store.oauth_apps[ai].key) {
        return Err(OAuthError::InvalidAppKey);
    }
    let (cid, csecret) = match parse_token(code) {
        None => {
            return Err(OAuthError::InvalidOAuthCode);
        },
        Some(p) => p,
    };
    let ci = match store.code_idx_by_id(&cid) {
        None => {
            proof {
                lemma_find_by_properties(store.oauth_codes@, code_id_key(), cid@);
            }
            return Err(OAuthError::InvalidOAuthCode);
        },
        Some(ci) => ci,
    };
    proof {
        lemma_find_by_properties(store.oauth_codes@, code_id_key(), cid@);
    }
    if store.oauth_codes[ci].expires_on < now {
        store.oauth_codes.remove(ci);
        proof {
            assert forall|k: int|
                0 <= k < store.oauth_codes@.len() implies (#[trigger] store.oauth_codes@[k]).wf()
                by {
                if k < ci as int {
                    assert(store.oauth_codes@[k] == old(store).oauth_codes@[k]);
                } else {
                    assert(store.oauth_codes@[k] == old(store).oauth_codes@[k + 1]);
                }
            }
        }
        return Err(OAuthError::InvalidOAuthCode);
    }
    if store.oauth_codes[ci].refresh != gt_refresh {
        return Err(OAuthError::InvalidGrantType);
    }
    if !bytes_eq(&store.oauth_codes[ci].redirect_uri, redirect_uri) || !bytes_eq(
        &store.oauth_codes[ci].app,
        &aid,
    ) {
        return Err(OAuthError::InvalidOAuthCode);
    }
    if !verify_secret(&csecret, &store.oauth_codes[ci].token) {
        return Err(OAuthError::InvalidOAuthCode);
    }
    let gid = crate::crypto::fresh_id();
    if store.grant_idx_by_id(&gid).is_some() {
        return Err(OAuthError::Internal);
    }
    proof {
        lemma_find_by_properties(store.oauth_sessions@, grant_id_key(), gid@);
    }
    let rcid = crate::crypto::fresh_id();
    if store.code_idx_by_id(&rcid).is_some() {
        return Err(OAuthError::Internal);
    }
    proof {
        lemma_find_by_properties(store.oauth_codes@, code_id_key(), rcid@);
    }
    let uid = bytes_clone(&store.oauth_codes[ci].user_id);
    let scopes1 = crate::bytes::bytes_vec_clone(&store.oauth_codes[ci].scopes);
    let scopes2 = crate::bytes::bytes_vec_clone(&store.oauth_codes[ci].scopes);
    let app_name = bytes_clone(&store.oauth_apps[ai].name);
    let access_secret = random_token(TOKEN_SECRET_LEN);
    let access_hash = hash_secret(&access_secret);
    let refresh_secret = random_token(TOKEN_SECRET_LEN);
    let refresh_hash = hash_secret(&refresh_secret);
    let grant = OAuthSession {
        id: gid,
        token: access_hash,
        created_on: now,
        expires_on: now + ACCESS_TTL,
        app_id: bytes_clone(&aid),
        app_name,
        user_id: bytes_clone(&uid),
        scopes: scopes1,
    };
    let rrow = OAuthCode {
        id: rcid,
        token: refresh_hash,
        app: bytes_clone(&aid),
        redirect_uri: bytes_clone(redirect_uri),
        created_on: now,
        expires_on: now + REFRESH_TTL,
        refresh: true,
        user_id: bytes_clone(&uid),
        scopes: scopes2,
    };
    let access_token = bytes_concat(&grant.id, &access_secret);
    let refresh_token = bytes_concat(&rrow.id, &refresh_secret);
    store.purge_grant_rows(&uid, &aid);
    proof {
        lemma_purge_grants(old(store).oauth_sessions@, uid@, aid@);
        assert forall|k: int|
            0 <= k < store.oauth_sessions@.len() implies (#[trigger] store.oauth_sessions@[
        k]).wf() by {
            assert(old(store).oauth_sessions@.contains(store.oauth_sessions@[k]));
            let j = choose|j: int|
                0 <= j < old(store).oauth_sessions@.len() && old(store).oauth_sessions@[j]
                    == store.oauth_sessions@[k];
            assert(old(store).oauth_sessions@[j].wf());
        }
        assert(find_by(store.oauth_sessions@, grant_id_key(), grant.id@) is None) by {
            lemma_find_by_properties(store.oauth_sessions@, grant_id_key(), grant.id@);
            match find_by(store.oauth_sessions@, grant_id_key(), grant.id@) {
                Some(x) => {
                    assert(old(store).oauth_sessions@.contains(store.oauth_sessions@[x]));
                    let j = choose|j: int|
                        0 <= j < old(store).oauth_sessions@.len() && old(store).oauth_sessions@[j]
                            == store.oauth_sessions@[x];
                    assert(grant_id_key()(old(store).oauth_sessions@[j]) != grant.id@);
                },
                None => {},
            }
        }
    }
    store.oauth_sessions.push(grant);
    let ghost mid = store.oauth_codes@;
    store.purge_code_rows(&uid, &aid);
    proof {
        lemma_purge_codes(old(store).oauth_codes@, uid@, aid@);
        assert forall|k: int|
            0 <= k < store.oauth_codes@.len() implies (#[trigger] store.oauth_codes@[k]).wf() by {
            assert(old(store).oauth_codes@.contains(store.oauth_codes@[k]));
            let j = choose|j: int|
                0 <= j < old(store).oauth_codes@.len() && old(store).oauth_codes@[j]
                    == store.oauth_codes@[k];
            assert(old(store).oauth_codes@[j].wf());
        }
        assert(find_by(store.oauth_codes@, code_id_key(), rrow.id@) is None) by {
            lemma_find_by_properties(store.oauth_codes@, code_id_key(), rrow.id@);
            match find_by(store.oauth_codes@, code_id_key(), rrow.id@) {
                Some(x) => {
                    assert(old(store).oauth_codes@.contains(store.oauth_codes@[x]));
                    let j = choose|j: int|
                        0 <= j < old(store).oauth_codes@.len() && old(store).oauth_codes@[j]
                            == store.oauth_codes@[x];
                    assert(code_id_key()(old(store).oauth_codes@[j]) != rrow.id@);
                },
                None => {},
            }
        }
    }
    store.oauth_codes.push(rrow);
    proof {
        assert(store.oauth_sessions@.last() == store.oauth_sessions@[store.oauth_sessions@.len()
            - 1]);
        assert(store.oauth_codes@.last() == store.oauth_codes@[store.oauth_codes@.len() - 1]);
        assert(access_token@.subrange(0, 24) =~= store.oauth_sessions@.last().id@);
        assert(access_token@.subrange(24, 88) =~= access_secret@);
        assert(refresh_token@.subrange(0, 24) =~= store.oauth_codes@.last().id@);
        assert(refresh_token@.subrange(24, 88) =~= refresh_secret@);
    }
    Ok(ExchangeSuccess { access_token, refresh_token, expires_in: ACCESS_TTL })
}

} // verus!
