//! End-to-end tests of the credential and session engine, run against
//! the real cryptographic crates.

use phazeid::account::{change_username, delete_account, deletion_state, restore_account};
use phazeid::envelope::VaultConfig;
use phazeid::errors::{LoginError, ResolveError, SignupError};
use phazeid::login::try_login;
use phazeid::mfa::{begin_enrollment, confirm_enrollment, disable_mfa, EnrollmentStatus, MfaError};
use phazeid::model::IPInfo;
use phazeid::password::{
    try_change_password, try_change_password_without_account, try_reset_password, ResetRequest,
};
use phazeid::signup::try_signup;
use phazeid::store::Store;
use phazeid::token::{check_rate_limit, identify, verified};
use phazeid::verifyflow::{confirm_session, verify_email_session};

const NOW: i64 = 1_700_000_000;

fn b(s: &str) -> Vec<u8> {
    s.as_bytes().to_vec()
}

fn ip(addr: &str) -> IPInfo {
    IPInfo {
        ip: b(addr),
        hostname: None,
        city: b("city"),
        region: b("region"),
        country: b("country"),
        loc: b("loc"),
        org: b("org"),
        postal: b("postal"),
        timezone: b("timezone"),
    }
}

fn cfg() -> VaultConfig {
    VaultConfig { root_key: b("root-key-material"), root_salt: b("global-salt") }
}

fn signup_alice(store: &mut Store) -> (Vec<u8>, Vec<u8>) {
    let r = try_signup(
        store,
        &b("alice"),
        &b("Secret123!"),
        &b("a@example.com"),
        ip("1.1.1.1"),
        NOW,
    )
    .expect("signup should succeed");
    (r.token, r.verification_code)
}

#[test]
fn signup_returns_fresh_unverified_account() {
    let mut store = Store::new();
    let r = try_signup(
        &mut store,
        &b("alice"),
        &b("Secret123!"),
        &b("a@example.com"),
        ip("1.1.1.1"),
        NOW,
    )
    .expect("signup should succeed");
    assert_eq!(r.token.len(), 88);
    assert_eq!(r.verification_code.len(), 6);
    let u = &store.users[r.user];
    assert_eq!(u.username, b("alice"));
    assert_eq!(u.email, b("a@example.com"));
    assert!(!u.email_verified);
    assert!(!u.has_mfa);
    let s = &store.sessions[r.session];
    assert!(!s.valid);
    assert_eq!(s.expires_on, NOW + 2629800);
}

#[test]
fn signup_rejects_bad_email_and_duplicates() {
    let mut store = Store::new();
    assert_eq!(
        try_signup(&mut store, &b("alice"), &b("pw"), &b("not-an-email"), ip("1.1.1.1"), NOW)
            .unwrap_err(),
        SignupError::BadEmail
    );
    signup_alice(&mut store);
    assert_eq!(
        try_signup(&mut store, &b("alice"), &b("pw"), &b("b@example.com"), ip("1.1.1.1"), NOW)
            .unwrap_err(),
        SignupError::UsernameTaken
    );
    assert_eq!(
        try_signup(&mut store, &b("bob"), &b("pw"), &b("a@example.com"), ip("1.1.1.1"), NOW)
            .unwrap_err(),
        SignupError::EmailTaken
    );
    assert_eq!(
        try_signup(&mut store, &b(""), &b("pw"), &b("c@example.com"), ip("1.1.1.1"), NOW)
            .unwrap_err(),
        SignupError::BadLength
    );
}

#[test]
fn verify_email_flips_session_valid_without_mfa() {
    let mut store = Store::new();
    let (token, code) = signup_alice(&mut store);
    let (ui, si) = identify(&mut store, &token, NOW, &b("1.1.1.1"), false).expect("resolves");
    verify_email_session(&mut store, ui, si, &code).expect("correct code");
    assert!(store.users[ui].email_verified);
    assert!(store.sessions[si].valid);
    assert_eq!(store.users[ui].email_verification_code.len(), 0);
}

#[test]
fn verify_email_rejects_wrong_code() {
    let mut store = Store::new();
    let (token, _code) = signup_alice(&mut store);
    let (ui, si) = identify(&mut store, &token, NOW, &b("1.1.1.1"), false).expect("resolves");
    assert!(verify_email_session(&mut store, ui, si, &b("WRONG!")).is_err());
    assert!(!store.users[ui].email_verified);
    assert!(!store.sessions[si].valid);
}

#[test]
fn login_with_correct_password_issues_invalid_session() {
    let mut store = Store::new();
    signup_alice(&mut store);
    let r = try_login(&mut store, &b("alice"), &b("Secret123!"), ip("2.2.2.2"), NOW + 10)
        .expect("login should succeed");
    assert_eq!(r.token.len(), 88);
    let s = &store.sessions[r.session];
    assert!(!s.valid, "a fresh session is not yet valid");
    assert_eq!(s.user_id, store.users[r.user].id);
    assert_eq!(store.users[r.user].login_attempts, 0);
}

#[test]
fn login_unknown_user_and_wrong_password_rejected_alike() {
    let mut store = Store::new();
    signup_alice(&mut store);
    assert_eq!(
        try_login(&mut store, &b("nobody"), &b("Secret123!"), ip("1.1.1.1"), NOW).unwrap_err(),
        LoginError::BadCredentials
    );
    assert_eq!(
        try_login(&mut store, &b("alice"), &b("wrong"), ip("1.1.1.1"), NOW).unwrap_err(),
        LoginError::BadCredentials
    );
}

#[test]
fn five_failed_logins_lock_and_sixth_is_rejected() {
    let mut store = Store::new();
    signup_alice(&mut store);
    for i in 0..5 {
        let e = try_login(&mut store, &b("alice"), &b("wrong"), ip("1.1.1.1"), NOW + i)
            .unwrap_err();
        assert_eq!(e, LoginError::BadCredentials);
    }
    let u = &store.users[0];
    assert!(u.account_locked);
    assert_eq!(u.locked_until, NOW + 4 + 900);
    assert_eq!(u.login_attempts, 0, "the counter resets when the lock raises");
    let e = try_login(&mut store, &b("alice"), &b("Secret123!"), ip("1.1.1.1"), NOW + 100)
        .unwrap_err();
    assert_eq!(e, LoginError::Locked { until: NOW + 4 + 900 });
    assert_eq!(store.users[0].login_attempts, 0, "a locked attempt consumes nothing");
}

#[test]
fn expired_lock_clears_and_login_succeeds() {
    let mut store = Store::new();
    signup_alice(&mut store);
    for i in 0..5 {
        let _ = try_login(&mut store, &b("alice"), &b("wrong"), ip("1.1.1.1"), NOW + i);
    }
    let after = NOW + 4 + 901;
    try_login(&mut store, &b("alice"), &b("Secret123!"), ip("1.1.1.1"), after)
        .expect("the lock expired");
    assert!(!store.users[0].account_locked);
}

#[test]
fn issued_token_resolves_to_its_session() {
    let mut store = Store::new();
    signup_alice(&mut store);
    let r = try_login(&mut store, &b("alice"), &b("Secret123!"), ip("2.2.2.2"), NOW).unwrap();
    let (ui, si) = identify(&mut store, &r.token, NOW + 5, &b("2.2.2.2"), false)
        .expect("the issued token resolves");
    assert_eq!(store.users[ui].username, b("alice"));
    assert_eq!(store.sessions[si].id.as_slice(), &r.token[..24]);
}

#[test]
fn tampered_token_secret_is_rejected() {
    let mut store = Store::new();
    signup_alice(&mut store);
    let r = try_login(&mut store, &b("alice"), &b("Secret123!"), ip("2.2.2.2"), NOW).unwrap();
    let mut bad = r.token.clone();
    bad[87] = if bad[87] == b'A' { b'B' } else { b'A' };
    assert_eq!(
        identify(&mut store, &bad, NOW, &b("2.2.2.2"), false).unwrap_err(),
        ResolveError::SecretMismatch
    );
}

#[test]
fn unknown_token_id_is_not_found_and_short_token_malformed() {
    let mut store = Store::new();
    signup_alice(&mut store);
    let mut unknown = b("ffffffffffffffffffffffff");
    unknown.extend_from_slice(&[b'x'; 64]);
    assert_eq!(
        identify(&mut store, &unknown, NOW, &b("1.1.1.1"), false).unwrap_err(),
        ResolveError::NotFound
    );
    assert_eq!(
        identify(&mut store, &b("short"), NOW, &b("1.1.1.1"), false).unwrap_err(),
        ResolveError::Malformed
    );
}

#[test]
fn expired_token_fails_and_purges_other_expired_sessions() {
    let mut store = Store::new();
    let (r1_token, code) = signup_alice(&mut store);
    // Complete the signup session so that a later login keeps it.
    let (ui, si) = identify(&mut store, &r1_token, NOW, &b("1.1.1.1"), false).unwrap();
    verify_email_session(&mut store, ui, si, &code).unwrap();
    let r1 = r1_token;
    let r2 = try_login(&mut store, &b("alice"), &b("Secret123!"), ip("1.1.1.1"), NOW).unwrap();
    // Age both of the user's sessions beyond their expiry.
    for s in store.sessions.iter_mut() {
        s.expires_on = NOW + 1;
    }
    let count_before = store.sessions.len();
    assert!(count_before >= 2);
    let e = identify(&mut store, &r2.token, NOW + 2, &b("1.1.1.1"), false).unwrap_err();
    assert_eq!(e, ResolveError::Expired);
    assert!(
        store.sessions.is_empty(),
        "resolving one expired token removes the user's other expired rows"
    );
    assert_eq!(
        identify(&mut store, &r1, NOW + 2, &b("1.1.1.1"), false).unwrap_err(),
        ResolveError::NotFound
    );
}

#[test]
fn ip_binding_rejects_a_different_address() {
    let mut store = Store::new();
    signup_alice(&mut store);
    let r = try_login(&mut store, &b("alice"), &b("Secret123!"), ip("2.2.2.2"), NOW).unwrap();
    assert_eq!(
        identify(&mut store, &r.token, NOW, &b("3.3.3.3"), true).unwrap_err(),
        ResolveError::IpMismatch
    );
    assert!(identify(&mut store, &r.token, NOW, &b("2.2.2.2"), true).is_ok());
}

fn verified_user(store: &mut Store) -> (Vec<u8>, usize, usize) {
    let (token, code) = signup_alice(store);
    let (ui, si) = identify(store, &token, NOW, &b("1.1.1.1"), false).unwrap();
    verify_email_session(store, ui, si, &code).unwrap();
    (token, ui, si)
}

fn current_code(secret: &[u8], time: u64) -> Vec<u8> {
    let totp = totp_rs::Builder::new()
        .with_algorithm(totp_rs::Algorithm::SHA1)
        .with_digits(6)
        .with_skew(1)
        .with_step_duration(30)
        .with_secret(secret.to_vec())
        .build()
        .expect("a sixteen-byte secret builds");
    totp.generate(time).to_string().into_bytes()
}

#[test]
fn confirm_enrollment_flips_once_and_returns_six_unique_codes() {
    let mut store = Store::new();
    let (_token, ui, _si) = verified_user(&mut store);
    let vault = cfg();
    let e = match begin_enrollment(&mut store, ui, &vault) {
        EnrollmentStatus::Started(e) => e,
        EnrollmentStatus::AlreadyEnabled => panic!("no factor was enrolled yet"),
    };
    assert_eq!(e.secret.len(), 16);
    assert!(!store.users[ui].has_mfa, "enrollment alone does not confirm");
    let time: u64 = NOW as u64;
    let code = current_code(&e.secret, time);
    let raws = confirm_enrollment(&mut store, ui, &code, time, &vault).expect("correct code");
    assert!(store.users[ui].has_mfa);
    assert_eq!(raws.len(), 6);
    for i in 0..raws.len() {
        assert_eq!(raws[i].len(), 8);
        for j in 0..i {
            assert_ne!(raws[i], raws[j], "backup codes must be unique");
        }
        assert!(
            phazeid::crypto::verify_secret(&raws[i], &store.users[ui].backup_codes[i]),
            "each raw code verifies against its stored hash"
        );
    }
    assert_eq!(
        confirm_enrollment(&mut store, ui, &code, time, &vault).unwrap_err(),
        MfaError::AlreadyEnabled,
        "the flag flips exactly once"
    );
}

#[test]
fn wrong_totp_code_is_rejected_and_changes_nothing() {
    let mut store = Store::new();
    let (_token, ui, _si) = verified_user(&mut store);
    let vault = cfg();
    match begin_enrollment(&mut store, ui, &vault) {
        EnrollmentStatus::Started(_) => {},
        EnrollmentStatus::AlreadyEnabled => panic!("no factor was enrolled yet"),
    }
    let e = confirm_enrollment(&mut store, ui, &b("000000"), NOW as u64 + 90000, &vault);
    assert_eq!(e.unwrap_err(), MfaError::BadCode);
    assert!(!store.users[ui].has_mfa);
}

#[test]
fn disable_mfa_requires_an_enabled_factor() {
    let mut store = Store::new();
    let (_token, ui, _si) = verified_user(&mut store);
    assert!(disable_mfa(&mut store, ui).is_err());
    let vault = cfg();
    let e = match begin_enrollment(&mut store, ui, &vault) {
        EnrollmentStatus::Started(e) => e,
        EnrollmentStatus::AlreadyEnabled => panic!("no factor was enrolled yet"),
    };
    let time: u64 = NOW as u64;
    let code = current_code(&e.secret, time);
    confirm_enrollment(&mut store, ui, &code, time, &vault).unwrap();
    disable_mfa(&mut store, ui).expect("enabled factor can be disabled");
    let u = &store.users[ui];
    assert!(!u.has_mfa);
    assert!(u.mfa_string.is_none());
    assert!(u.backup_codes.is_empty());
}

#[test]
fn plain_confirmation_requires_email_and_no_mfa() {
    let mut store = Store::new();
    let (token, code) = signup_alice(&mut store);
    let (ui, si) = identify(&mut store, &token, NOW, &b("1.1.1.1"), false).unwrap();
    assert!(confirm_session(&mut store, ui, si).is_err(), "email not verified yet");
    verify_email_session(&mut store, ui, si, &code).unwrap();
    confirm_session(&mut store, ui, si).expect("verified email, no second factor");
    assert!(store.sessions[si].valid);
}

#[test]
fn verified_reports_the_pending_procedure() {
    let mut store = Store::new();
    let (token, code) = signup_alice(&mut store);
    let (ui, si) = identify(&mut store, &token, NOW, &b("1.1.1.1"), false).unwrap();
    assert_eq!(
        verified(&store.users[ui], &store.sessions[si]),
        phazeid::errors::VerifyState::NeedsEmail
    );
    verify_email_session(&mut store, ui, si, &code).unwrap();
    assert_eq!(
        verified(&store.users[ui], &store.sessions[si]),
        phazeid::errors::VerifyState::Verified
    );
}

#[test]
fn password_reset_round_trip() {
    let mut store = Store::new();
    signup_alice(&mut store);
    let sent = match try_reset_password(&mut store, &b("a@example.com"), NOW) {
        ResetRequest::Sent { token, user } => {
            assert_eq!(user, 0);
            token
        },
        _ => panic!("the account exists"),
    };
    assert_eq!(sent.len(), 88);
    try_change_password_without_account(&mut store, &sent, &b("NewSecret1!"), NOW + 10)
        .expect("fresh reset token sets the password");
    try_login(&mut store, &b("alice"), &b("NewSecret1!"), ip("1.1.1.1"), NOW + 1000)
        .expect("the new password logs in");
    assert_eq!(
        try_login(&mut store, &b("alice"), &b("Secret123!"), ip("1.1.1.1"), NOW + 1000)
            .unwrap_err(),
        LoginError::BadCredentials
    );
}

#[test]
fn password_reset_acknowledges_unknown_addresses() {
    let mut store = Store::new();
    signup_alice(&mut store);
    match try_reset_password(&mut store, &b("nobody@example.com"), NOW) {
        ResetRequest::NoAccount => {},
        _ => panic!("an unknown address is acknowledged without a token"),
    }
    match try_reset_password(&mut store, &b("not an email"), NOW) {
        ResetRequest::BadEmail => {},
        _ => panic!("a malformed address is rejected"),
    }
}

#[test]
fn stale_reset_token_fails_and_clears() {
    let mut store = Store::new();
    signup_alice(&mut store);
    let sent = match try_reset_password(&mut store, &b("a@example.com"), NOW) {
        ResetRequest::Sent { token, .. } => token,
        _ => panic!("the account exists"),
    };
    let late = NOW + 901;
    assert!(
        try_change_password_without_account(&mut store, &sent, &b("NewSecret1!"), late).is_err()
    );
    assert!(store.users[0].password_change_token.is_none(), "the aged token is cleared");
}

#[test]
fn authenticated_password_change_and_cooldown() {
    let mut store = Store::new();
    let (token, _ui, _si) = verified_user(&mut store);
    try_change_password(
        &mut store,
        &token,
        &b("Changed123!"),
        &b("Secret123!"),
        NOW + 5,
        &b("1.1.1.1"),
        false,
    )
    .expect("old password is correct");
    let again = try_change_password(
        &mut store,
        &token,
        &b("Another123!"),
        &b("Changed123!"),
        NOW + 10,
        &b("1.1.1.1"),
        false,
    );
    assert_eq!(again.unwrap_err(), phazeid::errors::ChangePasswordError::RateLimited);
}

#[test]
fn change_username_respects_cooldown_and_uniqueness() {
    let mut store = Store::new();
    let (_token, ui, _si) = verified_user(&mut store);
    change_username(&mut store, ui, &b("alice2"), true, NOW + 5).expect("first change");
    assert_eq!(store.users[ui].username, b("alice2"));
    let e = change_username(&mut store, ui, &b("alice3"), true, NOW + 10);
    assert_eq!(e.unwrap_err(), phazeid::account::ChangeError::RateLimited);
}

#[test]
fn delete_account_revokes_sessions_and_restore_undoes() {
    let mut store = Store::new();
    let (_token, ui, _si) = verified_user(&mut store);
    delete_account(&mut store, ui, NOW + 5);
    assert!(store.sessions.is_empty());
    let (deleting, left) = deletion_state(&store, ui, NOW + 6);
    assert!(deleting);
    assert_eq!(left, 86400 - 1);
    restore_account(&mut store, ui, NOW + 10).expect("grace period still runs");
    assert!(store.users[ui].deletion_flagged_after.is_none());
}

#[test]
fn rate_limit_guard_is_exact() {
    assert!(!check_rate_limit(NOW, 900, NOW + 899));
    assert!(check_rate_limit(NOW, 900, NOW + 900));
}

#[test]
fn backup_code_verifies_once_and_is_consumed() {
    let mut store = Store::new();
    let (_token, ui, si) = verified_user(&mut store);
    let vault = cfg();
    let e = match begin_enrollment(&mut store, ui, &vault) {
        EnrollmentStatus::Started(e) => e,
        EnrollmentStatus::AlreadyEnabled => panic!("no factor was enrolled yet"),
    };
    let time: u64 = NOW as u64;
    let code = current_code(&e.secret, time);
    let raws = confirm_enrollment(&mut store, ui, &code, time, &vault).unwrap();
    // A fresh login needs verification again; use a backup code.
    let r = try_login(&mut store, &b("alice"), &b("Secret123!"), ip("1.1.1.1"), NOW + 5)
        .unwrap();
    let backup = raws[2].clone();
    phazeid::mfa::verify_backup_session(&mut store, ui, r.session, &backup)
        .expect("an unused backup code verifies");
    assert!(store.sessions[r.session].valid);
    assert_eq!(store.users[ui].backup_codes.len(), 5, "the used code is gone");
    // The same code a second time is rejected: single use.
    let r2 = try_login(&mut store, &b("alice"), &b("Secret123!"), ip("1.1.1.1"), NOW + 6)
        .unwrap();
    assert_eq!(
        phazeid::mfa::verify_backup_session(&mut store, ui, r2.session, &backup).unwrap_err(),
        MfaError::BadCode
    );
    assert!(!store.sessions[r2.session].valid);
    let _ = si;
}

#[test]
fn issued_session_token_resolves_once_issued() {
    let mut store = Store::new();
    let (_token, ui, _si) = verified_user(&mut store);
    let r = phazeid::login::issue_session(&mut store, ui, ip("9.9.9.9"), 3600, NOW)
        .expect("a fresh id does not collide");
    assert!(!store.sessions[r.session].valid);
    assert_eq!(store.sessions[r.session].expires_on, NOW + 3600);
    let secret_half = &r.token[24..];
    assert_ne!(
        store.sessions[r.session].token.as_slice(),
        secret_half,
        "the store holds a salted hash, not the raw secret"
    );
    let (got_ui, got_si) = identify(&mut store, &r.token, NOW + 1, &b("9.9.9.9"), true)
        .expect("the issued token resolves against its stored hash");
    assert_eq!(got_ui, ui);
    assert_eq!(got_si, r.session);
}
