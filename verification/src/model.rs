//! Data model: users, sessions, OAuth applications, codes and grants.
//!
//! Identifiers are 24 lowercase hex bytes (the persisted lookup key of every
//! row). Secret halves of tokens are never stored: only their salted hashes
//! are, as produced by the trusted hashing wrapper.

use vstd::prelude::*;

verus! {

/// Upper bound accepted for timestamps, far enough below `i64::MAX` that
/// every cooldown or lifetime the engine adds stays in range.
pub const MAX_TIMESTAMP: i64 = 0x7fff_ffff_0000_0000;

/// Largest interval ever added to a timestamp (the refresh-code lifetime).
pub const MAX_LIFETIME: i64 = 31557600;

/// A timestamp the engine can safely do arithmetic on.
pub open spec fn ts_ok(t: i64) -> bool {
    0 <= t <= MAX_TIMESTAMP
}

/// A current-time value the engine accepts: far enough below the cap that
/// adding any lifetime or cooldown stays a valid timestamp.
pub open spec fn now_ok(t: i64) -> bool {
    0 <= t && t + MAX_LIFETIME <= MAX_TIMESTAMP
}

/// Lowercase hex digit.
pub open spec fn is_lower_hex(b: u8) -> bool {
    (0x30 <= b <= 0x39) || (0x61 <= b <= 0x66)
}

/// Hex digit of either case, as accepted when parsing an id.
pub open spec fn is_hex(b: u8) -> bool {
    is_lower_hex(b) || (0x41 <= b <= 0x46)
}

/// A row identifier: exactly 24 lowercase hex bytes.
pub open spec fn is_object_id(s: Seq<u8>) -> bool {
    s.len() == 24 && (forall|i: int| 0 <= i < s.len() ==> is_lower_hex(#[trigger] s[i]))
}

/// Network location metadata captured when a session is issued.
#[derive(Clone, Debug)]
pub struct IPInfo {
    pub ip: Vec<u8>,
    pub hostname: Option<Vec<u8>>,
    pub city: Vec<u8>,
    pub region: Vec<u8>,
    pub country: Vec<u8>,
    pub loc: Vec<u8>,
    pub org: Vec<u8>,
    pub postal: Vec<u8>,
    pub timezone: Vec<u8>,
}

/// A pending email change: the new address and the code mailed to it.
#[derive(Clone, Debug)]
pub struct UserEmailUpdate {
    pub email: Vec<u8>,
    pub verification_code: Vec<u8>,
}

/// One account.
#[derive(Clone, Debug)]
pub struct User {
    pub id: Vec<u8>,

    pub username: Vec<u8>,
    /// Salted hash of the password; the password itself is never stored.
    pub password: Vec<u8>,

    pub last_username_change: i64,
    pub last_password_change: i64,
    pub last_email_change: i64,
    pub last_avatar_change: i64,

    /// Salted hash of an outstanding reset token, if one was mailed.
    pub password_change_token: Option<Vec<u8>>,
    pub password_change_token_generated: i64,

    pub login_attempts: u32,
    pub account_locked: bool,
    pub locked_until: i64,

    pub email: Vec<u8>,
    pub email_verification_code: Vec<u8>,
    pub email_verified: bool,
    pub email_update: UserEmailUpdate,

    pub avatar: Vec<u8>,

    pub has_mfa: bool,
    /// Envelope-sealed TOTP secret; present while enrollment is pending or
    /// confirmed, absent otherwise.
    pub mfa_string: Option<Vec<u8>>,
    /// Salted hashes of the single-use backup codes.
    pub backup_codes: Vec<Vec<u8>>,

    pub roles: Vec<Vec<u8>>,
    pub allowed_apps: Vec<Vec<u8>>,

    pub patreon_id: Option<Vec<u8>>,
    pub patreon_tiers: Vec<Vec<u8>>,
    pub patreon_last_update: i64,
    pub patreon_refresh_token: Option<Vec<u8>>,
    pub patreon_token: Option<Vec<u8>>,
    pub patreon_token_expires: i64,

    pub deletion_flagged_after: Option<i64>,
    pub apps_to_delete_data: Vec<Vec<u8>>,
}

impl User {
    /// Well-formedness: a confirmed second factor implies a stored secret,
    /// the attempt counter sits below the lockout threshold, and every
    /// timestamp admits the engine's arithmetic.
    pub open spec fn wf(self) -> bool {
        &&& is_object_id(self.id@)
        &&& self.has_mfa ==> self.mfa_string is Some
        &&& self.login_attempts < 5
        &&& ts_ok(self.last_username_change)
        &&& ts_ok(self.last_password_change)
        &&& ts_ok(self.last_email_change)
        &&& ts_ok(self.last_avatar_change)
        &&& ts_ok(self.password_change_token_generated)
        &&& ts_ok(self.locked_until)
        &&& ts_ok(self.patreon_last_update)
        &&& ts_ok(self.patreon_token_expires)
        &&& self.deletion_flagged_after matches Some(t) ==> ts_ok(t)
    }
}

/// One browser/device login, looked up by `id`, authenticated by the hash
/// of the token's secret half.
#[derive(Clone, Debug)]
pub struct Session {
    pub id: Vec<u8>,
    /// Salted hash of the token's secret half.
    pub token: Vec<u8>,
    pub created_on: i64,
    pub expires_on: i64,
    pub loc: IPInfo,
    /// True only after the verification chain has completed at least once.
    pub valid: bool,
    pub challenge_code: Option<Vec<u8>>,
    pub user_id: Vec<u8>,
}

impl Session {
    pub open spec fn wf(self) -> bool {
        &&& is_object_id(self.id@)
        &&& is_object_id(self.user_id@)
        &&& ts_ok(self.created_on)
        &&& ts_ok(self.expires_on)
    }
}

/// A registered OAuth client.
#[derive(Clone, Debug)]
pub struct OAuthApplication {
    pub id: Vec<u8>,
    pub name: Vec<u8>,
    /// Permits consent-less (skip) authorization.
    pub allow_skip: bool,
    /// Salted hash of the client secret.
    pub key: Vec<u8>,
    pub redirect_uris: Vec<Vec<u8>>,
    pub owner_id: Vec<u8>,
}

impl OAuthApplication {
    pub open spec fn wf(self) -> bool {
        &&& is_object_id(self.id@)
        &&& is_object_id(self.owner_id@)
    }
}

/// A short-lived exchange artifact: an authorization code when `refresh`
/// is false, a refresh code when true.
#[derive(Clone, Debug)]
pub struct OAuthCode {
    pub id: Vec<u8>,
    /// Salted hash of the code's secret half.
    pub token: Vec<u8>,
    pub app: Vec<u8>,
    pub redirect_uri: Vec<u8>,
    pub created_on: i64,
    pub expires_on: i64,
    pub refresh: bool,
    pub user_id: Vec<u8>,
    pub scopes: Vec<Vec<u8>>,
}

impl OAuthCode {
    pub open spec fn wf(self) -> bool {
        &&& is_object_id(self.id@)
        &&& is_object_id(self.app@)
        &&& is_object_id(self.user_id@)
        &&& ts_ok(self.created_on)
        &&& ts_ok(self.expires_on)
    }
}

/// An issued access grant bound to a user, application and scope set.
#[derive(Clone, Debug)]
pub struct OAuthSession {
    pub id: Vec<u8>,
    /// Salted hash of the access token's secret half.
    pub token: Vec<u8>,
    pub created_on: i64,
    pub expires_on: i64,
    pub app_id: Vec<u8>,
    pub app_name: Vec<u8>,
    pub user_id: Vec<u8>,
    pub scopes: Vec<Vec<u8>>,
}

impl OAuthSession {
    pub open spec fn wf(self) -> bool {
        &&& is_object_id(self.id@)
        &&& is_object_id(self.app_id@)
        &&& is_object_id(self.user_id@)
        &&& ts_ok(self.created_on)
        &&& ts_ok(self.expires_on)
    }
}

/// What a user may see of a session (their own or an OAuth grant):
/// no secret material, only display metadata.
#[derive(Clone, Debug)]
pub struct PublicSession {
    pub id: Vec<u8>,
    pub created_on: i64,
    pub expires_on: i64,
    pub loc: Option<IPInfo>,
    pub app_name: Option<Vec<u8>>,
    pub is_this: bool,
}

impl PublicSession {
    pub fn from_session(session: Session, is_this: bool) -> (r: PublicSession)
        ensures
            r.id@ == session.id@,
            r.created_on == session.created_on,
            r.expires_on == session.expires_on,
            r.loc is Some,
            r.app_name is None,
            r.is_this == is_this,
    {
        PublicSession {
            id: session.id,
            created_on: session.created_on,
            expires_on: session.expires_on,
            loc: Some(session.loc),
            app_name: None,
            is_this,
        }
    }

    pub fn from_oauth_session(session: OAuthSession, is_this: bool) -> (r: PublicSession)
        ensures
            r.id@ == session.id@,
            r.created_on == session.created_on,
            r.expires_on == session.expires_on,
            r.loc is None,
            r.app_name matches Some(n) && n@ == session.app_name@,
            r.is_this == is_this,
    {
        PublicSession {
            id: session.id,
            created_on: session.created_on,
            expires_on: session.expires_on,
            loc: None,
            app_name: Some(session.app_name),
            is_this,
        }
    }
}

/// The response of the bot-gate challenge, handed in by the caller.
#[derive(Clone, Debug)]
pub struct TurnstileRes {
    pub success: bool,
    pub error_codes: Vec<Vec<u8>>,
}

} // verus!
