//! Tests of account-field changes, avatar recording and the linked
//! third-party records.

use phazeid::account::{change_email, verify_change_email, ChangeError};
use phazeid::avatar::record_avatar_change;
use phazeid::envelope::VaultConfig;
use phazeid::model::IPInfo;
use phazeid::patreon::{patreon_plan, record_patreon_link, remove_patreon, PatreonPlan,
    PatreonTokenRes};
use phazeid::signup::try_signup;
use phazeid::store::Store;
use phazeid::token::identify;
use phazeid::verifyflow::verify_email_session;

const NOW: i64 = 1_700_000_000;

fn b(s: &str) -> Vec<u8> {
    s.as_bytes().to_vec()
}

fn ip(addr: &str) -> IPInfo {
    IPInfo {
        ip: b(addr),
        hostname: None,
        city: b("city"),
        region: b("region"),
        country: b("country"),
        loc: b("loc"),
        org: b("org"),
        postal: b("postal"),
        timezone: b("timezone"),
    }
}

fn cfg() -> VaultConfig {
    VaultConfig { root_key: b("root-key-material"), root_salt: b("global-salt") }
}

fn verified_user(store: &mut Store) -> usize {
    let r = try_signup(
        store,
        &b("alice"),
        &b("Secret123!"),
        &b("a@example.com"),
        ip("1.1.1.1"),
        NOW,
    )
    .unwrap();
    let (ui, si) = identify(store, &r.token, NOW, &b("1.1.1.1"), false).unwrap();
    verify_email_session(store, ui, si, &r.verification_code).unwrap();
    ui
}

#[test]
fn email_change_needs_the_mailed_code() {
    let mut store = Store::new();
    let ui = verified_user(&mut store);
    let code = change_email(&mut store, ui, &b("new@example.com"), true, NOW + 5)
        .expect("fresh address, past the bot-gate");
    assert_eq!(code.len(), 6);
    assert_eq!(store.users[ui].email, b("a@example.com"), "nothing changes until the code");
    assert_eq!(
        verify_change_email(&mut store, ui, &b("WRONG!")).unwrap_err(),
        ChangeError::BadCode
    );
    verify_change_email(&mut store, ui, &code).expect("the mailed code concludes the change");
    assert_eq!(store.users[ui].email, b("new@example.com"));
    assert_eq!(
        verify_change_email(&mut store, ui, &code).unwrap_err(),
        ChangeError::BadCode,
        "a concluded change leaves nothing pending"
    );
}

#[test]
fn email_change_rejects_captcha_failure_and_taken_address() {
    let mut store = Store::new();
    let ui = verified_user(&mut store);
    assert_eq!(
        change_email(&mut store, ui, &b("new@example.com"), false, NOW + 5).unwrap_err(),
        ChangeError::BadCaptcha
    );
    assert_eq!(
        change_email(&mut store, ui, &b("a@example.com"), true, NOW + 5).unwrap_err(),
        ChangeError::Taken
    );
}

#[test]
fn avatar_record_respects_its_cooldown() {
    let mut store = Store::new();
    let ui = verified_user(&mut store);
    record_avatar_change(&mut store, ui, &b("avatar-one"), NOW + 20).expect("first change");
    assert_eq!(store.users[ui].avatar, b("avatar-one"));
    assert!(
        record_avatar_change(&mut store, ui, &b("avatar-two"), NOW + 30).is_err(),
        "a second change inside fifteen seconds is refused"
    );
    record_avatar_change(&mut store, ui, &b("avatar-two"), NOW + 36).expect("cooldown passed");
}

#[test]
fn linked_account_tokens_round_trip_sealed() {
    let mut store = Store::new();
    let ui = verified_user(&mut store);
    let vault = cfg();
    let res = PatreonTokenRes {
        token_type: b("Bearer"),
        access_token: b("access-token-value"),
        expires_in: 3600,
        refresh_token: b("refresh-token-value"),
    };
    record_patreon_link(&mut store, ui, &vault, NOW + 5, &b("backer-1"), &vec![b("PATREON")],
        &res)
        .expect("no link yet, no cooldown");
    let stored = store.users[ui].patreon_token.clone().unwrap();
    assert_ne!(stored, b("access-token-value"), "the stored token is sealed");
    // Within the hour the plan is rate-limited; afterwards the stored
    // access token is still live and comes back unsealed.
    match patreon_plan(&store, ui, &vault, NOW + 10) {
        PatreonPlan::RateLimited => {},
        _ => panic!("a refresh within the hour is rate-limited"),
    }
    match patreon_plan(&store, ui, &vault, NOW + 3605) {
        PatreonPlan::UseToken(t) => assert_eq!(t, b("access-token-value")),
        _ => panic!("the access token is still live"),
    }
    // Once the access token ages out, the refresh token is handed back.
    match patreon_plan(&store, ui, &vault, NOW + 7200) {
        PatreonPlan::NeedsRefresh(t) => assert_eq!(t, b("refresh-token-value")),
        _ => panic!("the access token aged out"),
    }
    remove_patreon(&mut store, ui, NOW + 7300).expect("a link exists");
    assert!(store.users[ui].patreon_id.is_none());
    assert!(remove_patreon(&mut store, ui, NOW + 7400).is_err());
}
