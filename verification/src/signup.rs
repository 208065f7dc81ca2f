//! Signup: validation, uniqueness checks, and creation of the first
//! session of a fresh account.

use vstd::prelude::*;

use crate::bytes::bytes_clone;
use crate::bytes::bytes_concat;
use crate::crypto::{fresh_id, hash_matches, hash_secret, random_token};
use crate::errors::SignupError;
use crate::login::{CREDENTIAL_MAX_LEN, SESSION_TTL};
use crate::model::{is_object_id, now_ok, IPInfo, Session, User, UserEmailUpdate};
use crate::store::{
    email_key, find_by, session_id_key, user_id_key, username_key, Store,
};
use crate::token::TOKEN_SECRET_LEN;

verus! {

/// Whether `pattern` compiles as a regular expression and accepts the
/// UTF-8 reading of `text` (a pattern that does not compile, or text that
/// is not UTF-8, matches nothing). A deterministic function of the two,
/// named rather than written out.
pub uninterp spec fn regex_match(pattern: Seq<char>, text: Seq<u8>) -> bool;

/// Relies on regex's `Regex::new` and `Regex::is_match`: whether the
/// pattern compiles and accepts the text is a function of the pattern and
/// the text alone, which `regex_match` names.
#[verifier::external_body]
fn regex_is_match(pattern: &str, text: &Vec<u8>) -> (r: bool)
    ensures
        r == regex_match(pattern@, text@),
{
    match regex::Regex::new(pattern) {
        Err(_) => false,
        Ok(re) => match core::str::from_utf8(text) {
            Err(_) => false,
            Ok(t) => re.is_match(t),
        },
    }
}

/// The pattern that addresses must match: an addr-spec of atoms or
/// quoted strings, an `@`, and a domain of atoms or literals.
pub const EMAIL_PATTERN: &'static str = "^([^\\x00-\\x20\\x22\\x28\\x29\\x2c\\x2e\\x3a-\\x3c\\x3e\\x40\\x5b-\\x5d\\x7f-\\xff]+|\\x22([^\\x0d\\x22\\x5c\\x80-\\xff]|\\x5c[\\x00-\\x7f])*\\x22)(\\x2e([^\\x00-\\x20\\x22\\x28\\x29\\x2c\\x2e\\x3a-\\x3c\\x3e\\x40\\x5b-\\x5d\\x7f-\\xff]+|\\x22([^\\x0d\\x22\\x5c\\x80-\\xff]|\\x5c[\\x00-\\x7f])*\\x22))*\\x40([^\\x00-\\x20\\x22\\x28\\x29\\x2c\\x2e\\x3a-\\x3c\\x3e\\x40\\x5b-\\x5d\\x7f-\\xff]+|\\x5b([^\\x0d\\x5b-\\x5d\\x80-\\xff]|\\x5c[\\x00-\\x7f])*\\x5d)(\\x2e([^\\x00-\\x20\\x22\\x28\\x29\\x2c\\x2e\\x3a-\\x3c\\x3e\\x40\\x5b-\\x5d\\x7f-\\xff]+|\\x5b([^\\x0d\\x5b-\\x5d\\x80-\\xff]|\\x5c[\\x00-\\x7f])*\\x5d))*$";

/// The email grammar.
pub open spec fn spec_email_valid(e: Seq<u8>) -> bool {
    regex_match(EMAIL_PATTERN@, e)
}

/// Whether `email` is an acceptable address.
pub fn email_valid(email: &Vec<u8>) -> (r: bool)
    ensures
        r == spec_email_valid(email@),
{
    regex_is_match(EMAIL_PATTERN, email)
}

/// The avatar every fresh account starts with.
pub open spec fn spec_default_avatar() -> Seq<u8> {
    seq![0x64u8, 0x65, 0x66, 0x61, 0x75, 0x6c, 0x74]
}

/// Length of the code mailed for email verification.
pub const EMAIL_CODE_LEN: usize = 6;

/// What a successful signup hands back: the transported session token,
/// the indexes of the new rows, and the verification code to mail.
#[derive(Debug)]
pub struct SignupSuccess {
    pub token: Vec<u8>,
    pub user: usize,
    pub session: usize,
    pub verification_code: Vec<u8>,
}

/// Create an account and its first session.
///
/// The new user starts with `email_verified == false` and a six-byte
/// mailed verification code; the new session starts with `valid == false`.
pub fn try_signup(
    store: &mut Store,
    username: &Vec<u8>,
    password: &Vec<u8>,
    email: &Vec<u8>,
    ip_info: IPInfo,
    now: i64,
) -> (r: Result<SignupSuccess, SignupError>)
    requires
        old(store).wf(),
        now_ok(now),
    ensures
        final(store).wf(),
        final(store).oauth_apps@ == old(store).oauth_apps@,
        final(store).oauth_codes@ == old(store).oauth_codes@,
        final(store).oauth_sessions@ == old(store).oauth_sessions@,
        ({
            let bad_len = username@.len() == 0 || username@.len() > 50 || password@.len() > 50;
            let name_taken = find_by(old(store).users@, username_key(), username@) is Some;
            let email_taken = find_by(old(store).users@, email_key(), email@) is Some;
            &&& (r == Err::<SignupSuccess, SignupError>(SignupError::BadLength) <==> bad_len)
            &&& (r == Err::<SignupSuccess, SignupError>(SignupError::BadEmail) <==> !bad_len
                && !spec_email_valid(email@))
            &&& (r == Err::<SignupSuccess, SignupError>(SignupError::UsernameTaken) <==> !bad_len
                && spec_email_valid(email@) && name_taken)
            &&& (r == Err::<SignupSuccess, SignupError>(SignupError::EmailTaken) <==> !bad_len
                && spec_email_valid(email@) && !name_taken && email_taken)
            &&& (r is Err ==> final(store).users@ == old(store).users@ && final(store).sessions@
                == old(store).sessions@)
            &&& (r matches Ok(s) ==> {
                let u = final(store).users@.last();
                let sess = final(store).sessions@.last();
                &&& !bad_len && spec_email_valid(email@) && !name_taken && !email_taken
                &&& final(store).users@ == old(store).users@.push(u)
                &&& final(store).sessions@ == old(store).sessions@.push(sess)
                &&& s.user == old(store).users@.len()
                &&& s.session == old(store).sessions@.len()
                &&& u.username@ == username@
                &&& hash_matches(u.password@, password@)
                &&& u.email@ == email@
                &&& u.email_verified == false
                &&& u.email_verification_code@ == s.verification_code@
                &&& u.email_verification_code@.len() == EMAIL_CODE_LEN
                &&& u.has_mfa == false
                &&& u.mfa_string is None
                &&& u.backup_codes@.len() == 0
                &&& u.login_attempts == 0
                &&& !u.account_locked
                &&& u.avatar@ == spec_default_avatar()
                &&& u.roles@.len() == 0
                &&& u.allowed_apps@.len() == 0
                &&& u.deletion_flagged_after is None
                &&& find_by(old(store).users@, user_id_key(), u.id@) is None
                &&& find_by(old(store).sessions@, session_id_key(), sess.id@) is None
                &&& sess.user_id@ == u.id@
                &&& sess.created_on == now
                &&& sess.expires_on == now + SESSION_TTL
                &&& sess.valid == false
                &&& sess.challenge_code is None
                &&& sess.loc == ip_info
                &&& is_object_id(sess.id@)
                &&& s.token@.len() == 88
                &&& s.token@.subrange(0, 24) == sess.id@
                &&& s.token@.subrange(24, 88).len() == 64
                &&& hash_matches(sess.token@, s.token@.subrange(24, 88))
            })
        }),
{
    if username.len() == 0 || username.len() > CREDENTIAL_MAX_LEN || password.len()
        > CREDENTIAL_MAX_LEN {
        return Err(SignupError::BadLength);
    }
    if !email_valid(email) {
        return Err(SignupError::BadEmail);
    }
    if store.user_idx_by_username(username).is_some() {
        return Err(SignupError::UsernameTaken);
    }
    if store.user_idx_by_email(email).is_some() {
        return Err(SignupError::EmailTaken);
    }
    let uid = fresh_id();
    if store.user_idx_by_id(&uid).is_some() {
        return Err(SignupError::Internal);
    }
    let sid = fresh_id();
    if store.session_idx_by_id(&sid).is_some() {
        return Err(SignupError::Internal);
    }
    let password_hash = hash_secret(password);
    let secret = random_token(TOKEN_SECRET_LEN);
    let token_hash = hash_secret(&secret);
    let verification_code = random_token(EMAIL_CODE_LEN);
    let mut avatar: Vec<u8> = Vec::new();
    avatar.push(0x64);
    avatar.push(0x65);
    avatar.push(0x66);
    avatar.push(0x61);
    avatar.push(0x75);
    avatar.push(0x6c);
    avatar.push(0x74);
    proof {
        assert(avatar@ =~= spec_default_avatar());
    }
    let user = User {
        id: bytes_clone(&uid),
        username: bytes_clone(username),
        password: password_hash,
        last_username_change: 0,
        last_password_change: 0,
        last_email_change: 0,
        last_avatar_change: 0,
        password_change_token: None,
        password_change_token_generated: 0,
        login_attempts: 0,
        account_locked: false,
        locked_until: 0,
        email: bytes_clone(email),
        email_verification_code: bytes_clone(&verification_code),
        email_verified: false,
        email_update: UserEmailUpdate { email: Vec::new(), verification_code: Vec::new() },
        avatar,
        has_mfa: false,
        mfa_string: None,
        backup_codes: Vec::new(),
        roles: Vec::new(),
        allowed_apps: Vec::new(),
        patreon_id: None,
        patreon_tiers: Vec::new(),
        patreon_last_update: 0,
        patreon_refresh_token: None,
        patreon_token: None,
        patreon_token_expires: 0,
        deletion_flagged_after: None,
        apps_to_delete_data: Vec::new(),
    };
    let sess = Session {
        id: sid,
        token: token_hash,
        created_on: now,
        expires_on: now + SESSION_TTL,
        loc: ip_info,
        valid: false,
        challenge_code: None,
        user_id: uid,
    };
    let token = bytes_concat(&sess.id, &secret);
    let ui = store.users.len();
    let si = store.sessions.len();
    store.users.push(user);
    store.sessions.push(sess);
    proof {
        assert(store.users@.last() == store.users@[ui as int]);
        assert(store.sessions@.last() == store.sessions@[si as int]);
        assert(token@.subrange(0, 24) =~= store.sessions@.last().id@);
        assert(token@.subrange(24, 88) =~= secret@);
        assert forall|k: int| 0 <= k < store.users@.len() implies (#[trigger] store.users@[k]).wf()
            by {
            if k < ui as int {
                assert(store.users@[k] == old(store).users@[k]);
            }
        }
        assert forall|k: int|
            0 <= k < store.sessions@.len() implies (#[trigger] store.sessions@[k]).wf() by {
            if k < si as int {
                assert(store.sessions@[k] == old(store).sessions@[k]);
            }
        }
    }
    Ok(SignupSuccess { token, user: ui, session: si, verification_code })
}

} // verus!
