//! Tests of the OAuth authority, the tunnel protocol, the envelope
//! vault, and the parsers, run against the real outside crates.

use phazeid::apps::{add_app, app_info, apps_to_delete_users, logout_oauth, remove_oauth_app,
    sessions_oauth, AppInfo};
use phazeid::avatar::validate_avatar_png;
use phazeid::cookies::parse;
use phazeid::envelope::{b64_decode, b64_encode, open_for_user, seal_for_user, VaultConfig};
use phazeid::errors::{ResolveError, VerifyState};
use phazeid::model::IPInfo;
use phazeid::oauth::{authorize, exchange_token, identify_oauth, OAuthError};
use phazeid::signup::try_signup;
use phazeid::store::Store;
use phazeid::token::identify;
use phazeid::tunnel::{
    decimal_bytes, generate_keypair, handle_command, handshake_ack, handshake_key_message,
    login_status, opcode_of, parse_client_command, read_client_key, Opcode,
};
use phazeid::verifyflow::{verification_hint, verify_email_session};

use base64::Engine;
use rsa::pkcs8::{DecodePublicKey, EncodePublicKey};

const NOW: i64 = 1_700_000_000;

fn b(s: &str) -> Vec<u8> {
    s.as_bytes().to_vec()
}

fn ip(addr: &str) -> IPInfo {
    IPInfo {
        ip: b(addr),
        hostname: None,
        city: b("city"),
        region: b("region"),
        country: b("country"),
        loc: b("loc"),
        org: b("org"),
        postal: b("postal"),
        timezone: b("timezone"),
    }
}

fn cfg() -> VaultConfig {
    VaultConfig { root_key: b("root-key-material"), root_salt: b("global-salt") }
}

/// A signed-up, email-verified user with the developer role.
fn dev_user(store: &mut Store) -> usize {
    let r = try_signup(
        store,
        &b("alice"),
        &b("Secret123!"),
        &b("a@example.com"),
        ip("1.1.1.1"),
        NOW,
    )
    .unwrap();
    let token = r.token;
    let code = r.verification_code;
    let (ui, si) = identify(store, &token, NOW, &b("1.1.1.1"), false).unwrap();
    verify_email_session(store, ui, si, &code).unwrap();
    store.users[ui].roles.push(b("DEV"));
    ui
}

fn hex_and_secret(token: &[u8]) {
    assert_eq!(token.len(), 88);
    for &c in &token[..24] {
        assert!(c.is_ascii_hexdigit(), "the id half is hex");
    }
    for &c in &token[24..] {
        assert!(c.is_ascii_alphanumeric(), "the secret half is alphanumeric");
    }
}

#[test]
fn authorize_and_exchange_round_trip() {
    let mut store = Store::new();
    let ui = dev_user(&mut store);
    let app = add_app(&mut store, ui, &b("Demo App"), vec![b("https://app.example/cb")])
        .expect("developer may register");
    let code = authorize(
        &mut store,
        ui,
        &b("code"),
        &app.id,
        &b("https://app.example/cb"),
        &b("identify"),
        true,
        NOW,
    )
    .expect("valid authorization")
    .code;
    hex_and_secret(&code);
    let row = store.oauth_codes.last().unwrap();
    assert!(!row.refresh);
    assert_eq!(row.expires_on, NOW + 60);
    let mut auth = b("Bearer ");
    auth.extend_from_slice(&app.key);
    let ex = exchange_token(
        &mut store,
        &b("authorization_code"),
        &app.id,
        &b("https://app.example/cb"),
        &code,
        &auth,
        NOW + 10,
    )
    .expect("first exchange succeeds");
    hex_and_secret(&ex.access_token);
    hex_and_secret(&ex.refresh_token);
    assert_eq!(ex.expires_in, 2629800);
    // The code was consumed: a second exchange fails with the code error.
    let again = exchange_token(
        &mut store,
        &b("authorization_code"),
        &app.id,
        &b("https://app.example/cb"),
        &code,
        &auth,
        NOW + 20,
    );
    assert_eq!(again.unwrap_err(), OAuthError::InvalidOAuthCode);
    // The refresh code rotates through the refresh grant.
    let ex2 = exchange_token(
        &mut store,
        &b("refresh_token"),
        &app.id,
        &b("https://app.example/cb"),
        &ex.refresh_token,
        &auth,
        NOW + 30,
    )
    .expect("refresh exchange succeeds");
    assert_ne!(ex2.access_token, ex.access_token);
}

#[test]
fn exchange_rejects_mismatches_with_the_same_code_error() {
    let mut store = Store::new();
    let ui = dev_user(&mut store);
    let app = add_app(&mut store, ui, &b("Demo App"), vec![b("https://app.example/cb")])
        .unwrap();
    let app2 = add_app(
        &mut store,
        ui,
        &b("Other App"),
        vec![b("https://app.example/cb"), b("https://other.example/cb")],
    )
    .unwrap();
    let code = authorize(
        &mut store,
        ui,
        &b("code"),
        &app.id,
        &b("https://app.example/cb"),
        &b("identify"),
        true,
        NOW,
    )
    .unwrap()
    .code;
    let mut auth = b("Bearer ");
    auth.extend_from_slice(&app.key);
    let mut auth2 = b("Bearer ");
    auth2.extend_from_slice(&app2.key);
    // A redirect URI the code was not issued for.
    let e1 = exchange_token(
        &mut store,
        &b("authorization_code"),
        &app2.id,
        &b("https://other.example/cb"),
        &code,
        &auth2,
        NOW + 1,
    );
    assert_eq!(e1.unwrap_err(), OAuthError::InvalidOAuthCode);
    // A client the code was not issued for.
    let e2 = exchange_token(
        &mut store,
        &b("authorization_code"),
        &app2.id,
        &b("https://app.example/cb"),
        &code,
        &auth2,
        NOW + 1,
    );
    assert_eq!(e2.unwrap_err(), OAuthError::InvalidOAuthCode);
    // A consumed code: exchange once properly, then retry.
    exchange_token(
        &mut store,
        &b("authorization_code"),
        &app.id,
        &b("https://app.example/cb"),
        &code,
        &auth,
        NOW + 2,
    )
    .unwrap();
    let e3 = exchange_token(
        &mut store,
        &b("authorization_code"),
        &app.id,
        &b("https://app.example/cb"),
        &code,
        &auth,
        NOW + 3,
    );
    assert_eq!(e3.unwrap_err(), OAuthError::InvalidOAuthCode);
}

#[test]
fn authorize_validates_inputs() {
    let mut store = Store::new();
    let ui = dev_user(&mut store);
    let app = add_app(&mut store, ui, &b("Demo App"), vec![b("https://app.example/cb")])
        .unwrap();
    assert_eq!(
        authorize(&mut store, ui, &b("token"), &app.id, &b("https://app.example/cb"),
            &b("identify"), true, NOW).unwrap_err(),
        OAuthError::InvalidResponseType
    );
    assert_eq!(
        authorize(&mut store, ui, &b("code"), &b("ffffffffffffffffffffffff"),
            &b("https://app.example/cb"), &b("identify"), true, NOW).unwrap_err(),
        OAuthError::InvalidApp
    );
    assert_eq!(
        authorize(&mut store, ui, &b("code"), &app.id, &b("https://evil.example/cb"),
            &b("identify"), true, NOW).unwrap_err(),
        OAuthError::InvalidRedirect
    );
    assert_eq!(
        authorize(&mut store, ui, &b("code"), &app.id, &b("https://app.example/cb"),
            &b("identify"), false, NOW).unwrap_err(),
        OAuthError::InvalidCaptcha
    );
    assert_eq!(
        authorize(&mut store, ui, &b("code"), &app.id, &b("https://app.example/cb"),
            &b("identify,admin"), true, NOW).unwrap_err(),
        OAuthError::InvalidScopes
    );
    assert_eq!(
        authorize(&mut store, ui, &b("code_skip"), &app.id, &b("https://app.example/cb"),
            &b("identify"), true, NOW).unwrap_err(),
        OAuthError::InvalidResponseType,
        "consent-less authorization needs the application's flag"
    );
}

#[test]
fn bearer_token_resolves_user_and_scope_is_enforced() {
    let mut store = Store::new();
    let ui = dev_user(&mut store);
    let app = add_app(&mut store, ui, &b("Demo App"), vec![b("https://app.example/cb")])
        .unwrap();
    let code = authorize(&mut store, ui, &b("code"), &app.id, &b("https://app.example/cb"),
        &b("identify"), true, NOW).unwrap().code;
    let mut auth = b("Bearer ");
    auth.extend_from_slice(&app.key);
    let ex = exchange_token(&mut store, &b("authorization_code"), &app.id,
        &b("https://app.example/cb"), &code, &auth, NOW + 1).unwrap();
    let mut bearer = b("Bearer ");
    bearer.extend_from_slice(&ex.access_token);
    let got = identify_oauth(&mut store, &bearer, &b("identify"), NOW + 2)
        .expect("the access token resolves");
    assert_eq!(got, ui);
    assert_eq!(
        identify_oauth(&mut store, &bearer, &b("admin"), NOW + 2).unwrap_err(),
        ResolveError::ScopeMissing
    );
    assert_eq!(
        identify_oauth(&mut store, &bearer, &b("identify"), NOW + 9_000_000).unwrap_err(),
        ResolveError::Expired
    );
}

#[test]
fn grants_can_be_listed_and_revoked() {
    let mut store = Store::new();
    let ui = dev_user(&mut store);
    let app = add_app(&mut store, ui, &b("Demo App"), vec![b("https://app.example/cb")])
        .unwrap();
    let code = authorize(&mut store, ui, &b("code"), &app.id, &b("https://app.example/cb"),
        &b("identify"), true, NOW).unwrap().code;
    let mut auth = b("Bearer ");
    auth.extend_from_slice(&app.key);
    exchange_token(&mut store, &b("authorization_code"), &app.id,
        &b("https://app.example/cb"), &code, &auth, NOW + 1).unwrap();
    let listed = sessions_oauth(&store, ui, None);
    assert_eq!(listed.len(), 1);
    assert_eq!(listed[0].app_name.as_deref(), Some(b("Demo App").as_slice()));
    let gid = store.oauth_sessions[0].id.clone();
    assert!(logout_oauth(&mut store, ui, &gid));
    assert!(store.oauth_sessions.is_empty());
    assert!(!logout_oauth(&mut store, ui, &gid), "a second revocation finds nothing");
}

#[test]
fn removing_an_app_marks_data_deletion() {
    let mut store = Store::new();
    let ui = dev_user(&mut store);
    let app = add_app(&mut store, ui, &b("Demo App"), vec![b("https://app.example/cb")])
        .unwrap();
    let code = authorize(&mut store, ui, &b("code"), &app.id, &b("https://app.example/cb"),
        &b("identify"), true, NOW).unwrap().code;
    assert!(store.users[ui].allowed_apps.contains(&app.id));
    let mut auth = b("Bearer ");
    auth.extend_from_slice(&app.key);
    exchange_token(&mut store, &b("authorization_code"), &app.id,
        &b("https://app.example/cb"), &code, &auth, NOW + 1).unwrap();
    let gid = store.oauth_sessions[0].id.clone();
    remove_oauth_app(&mut store, ui, &gid).expect("the grant names the application");
    assert!(store.oauth_sessions.is_empty());
    assert!(!store.users[ui].allowed_apps.contains(&app.id));
    assert!(store.users[ui].apps_to_delete_data.contains(&app.id));
    let worklist = apps_to_delete_users(&store, &app.id, &auth).expect("key verifies");
    assert_eq!(worklist, vec![ui]);
}

#[test]
fn app_info_reports_name_and_redirect_validity() {
    let mut store = Store::new();
    let ui = dev_user(&mut store);
    let app = add_app(&mut store, ui, &b("Demo App"), vec![b("https://app.example/cb")])
        .unwrap();
    match app_info(&store, &app.id, &b("https://app.example/cb")) {
        AppInfo::Valid { name, allow_skip } => {
            assert_eq!(name, b("Demo App"));
            assert!(!allow_skip);
        },
        _ => panic!("the application and redirect are valid"),
    }
    match app_info(&store, &app.id, &b("https://evil.example/cb")) {
        AppInfo::BadRedirect => {},
        _ => panic!("an unregistered redirect is refused"),
    }
    match app_info(&store, &b("ffffffffffffffffffffffff"), &b("https://app.example/cb")) {
        AppInfo::Unknown => {},
        _ => panic!("an unknown id is refused"),
    }
}

#[test]
fn envelope_seal_open_round_trip() {
    let vault = cfg();
    let mut store = Store::new();
    let ui = dev_user(&mut store);
    let user = &store.users[ui];
    let sealed = seal_for_user(&vault, user, &b("linked-token-value"));
    assert_ne!(sealed, b("linked-token-value"), "the blob is not the plaintext");
    let opened = open_for_user(&vault, user, &sealed).expect("the blob opens");
    assert_eq!(opened, b("linked-token-value"));
    let mut tampered = sealed.clone();
    let last = tampered.len() - 1;
    tampered[last] = if tampered[last] == b'A' { b'B' } else { b'A' };
    assert!(open_for_user(&vault, user, &tampered).is_none(), "a tampered blob opens nothing");
}

#[test]
fn base64_round_trip_and_rejection() {
    let data = b("some bytes \x01\x02");
    let enc = b64_encode(&data);
    assert_eq!(b64_decode(&enc).unwrap(), data);
    assert!(b64_decode(&b("!not base64!")).is_none());
}

#[test]
fn cookie_parser_keeps_first_two_segments() {
    let jar = parse(&b("token=abc&theme=dark"));
    assert_eq!(jar.get(&b("token")).unwrap(), b("abc"));
    assert_eq!(jar.get(&b("theme")).unwrap(), b("dark"));
    assert!(jar.get(&b("missing")).is_none());
    let jar = parse(&b("a=b=c&plain"));
    assert_eq!(jar.get(&b("a")).unwrap(), b("b"), "only the first two segments count");
    assert!(jar.get(&b("plain")).is_none(), "an entry without a value is dropped");
    let jar = parse(&b("dup=one&dup=two"));
    assert_eq!(jar.get(&b("dup")).unwrap(), b("two"), "a later duplicate wins");
}

#[test]
fn avatar_check_demands_a_png_of_the_right_size() {
    let mut png = vec![0x89, 0x50, 0x4e, 0x47, 0x0d, 0x0a, 0x1a, 0x0a];
    png.extend_from_slice(&[0, 0, 0, 13]);
    png.extend_from_slice(b"IHDR");
    png.extend_from_slice(&300u32.to_be_bytes());
    png.extend_from_slice(&300u32.to_be_bytes());
    assert!(validate_avatar_png(&png));
    let mut wrong_size = png.clone();
    wrong_size[16..20].copy_from_slice(&299u32.to_be_bytes());
    assert!(!validate_avatar_png(&wrong_size));
    let mut not_png = png.clone();
    not_png[0] = 0xff;
    assert!(!validate_avatar_png(&not_png));
    assert!(!validate_avatar_png(&b("short")));
}

#[test]
fn opcodes_map_to_their_wire_bytes() {
    assert_eq!(opcode_of(&b("AL")), Some(Opcode::Login));
    assert_eq!(opcode_of(&b("AS")), Some(Opcode::Signup));
    assert_eq!(opcode_of(&b("EP")), Some(Opcode::ChangePassword));
    assert_eq!(opcode_of(&b("RP")), Some(Opcode::RequestReset));
    assert_eq!(opcode_of(&b("NP")), Some(Opcode::NewPassword));
    assert_eq!(opcode_of(&b("XX")), None);
    let c = parse_client_command(&b("ALpayload")).unwrap();
    assert_eq!(c.cmd, b("AL"));
    assert_eq!(c.data, b("payload"));
    assert!(parse_client_command(&b("A")).is_none());
}

#[test]
fn statuses_carry_their_codes() {
    assert_eq!(decimal_bytes(0), b("0"));
    assert_eq!(decimal_bytes(1700000900), b("1700000900"));
    let w = login_status(&Err(phazeid::errors::LoginError::Locked { until: 1700000900 }))
        .unwrap();
    assert_eq!(w, b("121700000900"));
    let w = login_status(&Err(phazeid::errors::LoginError::BadCredentials)).unwrap();
    assert_eq!(w, b("11"));
}

#[test]
fn verification_hint_encodes_the_return_target() {
    let (p, e) = verification_hint(VerifyState::NeedsEmail, &b("/profile"));
    assert_eq!(p, b("VERIFY_EMAIL"));
    assert_eq!(e, b("/verify-email?redirect_to=%2Fprofile"));
    let (p, _e) = verification_hint(VerifyState::NeedsMfa, &b("/x"));
    assert_eq!(p, b("VERIFY_MFA"));
}

/// Drive a whole tunnel exchange: handshake, an encrypted login command,
/// and the encrypted status reply, with the client side played by the
/// same RSA crate.
#[test]
fn tunnel_login_end_to_end() {
    let mut store = Store::new();
    let r = try_signup(
        &mut store,
        &b("alice"),
        &b("Secret123!"),
        &b("a@example.com"),
        ip("1.1.1.1"),
        NOW,
    )
    .unwrap();
    drop(r);
    // Server side of the handshake. To keep the test quick, the client
    // reuses the same ephemeral pair instead of generating its own.
    let (server_priv, server_pub) = generate_keypair().expect("keypair generates");
    let key_msg = handshake_key_message(&server_pub).expect("the public key exports");
    let der = base64::engine::general_purpose::STANDARD.decode(&key_msg).unwrap();
    let server_pub_at_client = rsa::RsaPublicKey::from_public_key_der(&der).unwrap();
    let client_priv = server_priv.clone();
    let client_pub = rsa::RsaPublicKey::from(&client_priv);
    let client_key_msg = base64::engine::general_purpose::STANDARD
        .encode(client_pub.to_public_key_der().unwrap().as_bytes())
        .into_bytes();
    let remote = read_client_key(&client_key_msg).expect("the client key imports");
    let ack = handshake_ack(&remote).expect("the ack seals");
    let ack_plain = {
        let ct = base64::engine::general_purpose::STANDARD.decode(&ack).unwrap();
        client_priv.decrypt(rsa::Oaep::new::<sha2::Sha256>(), &ct).unwrap()
    };
    assert_eq!(ack_plain, b("OK"));
    // One login frame: opcode, then two fixed-width encrypted segments.
    let seal = |data: &[u8]| -> Vec<u8> {
        let ct = server_pub_at_client
            .encrypt(&mut rand::thread_rng(), rsa::Oaep::new::<sha2::Sha256>(), data)
            .unwrap();
        base64::engine::general_purpose::STANDARD.encode(ct).into_bytes()
    };
    let seg1 = seal(b"alice");
    let seg2 = seal(b"Secret123!");
    assert_eq!(seg1.len(), 344, "a sealed segment is one fixed width");
    let mut frame = b("AL");
    frame.extend_from_slice(&seg1);
    frame.extend_from_slice(&seg2);
    let out = handle_command(
        &mut store,
        &frame,
        &server_priv,
        &remote,
        None,
        ip("1.1.1.1"),
        NOW + 5,
        &b("1.1.1.1"),
        false,
    );
    let reply = out.reply.expect("a well-formed login frame gets a reply");
    let plain = {
        let ct = base64::engine::general_purpose::STANDARD.decode(&reply).unwrap();
        client_priv.decrypt(rsa::Oaep::new::<sha2::Sha256>(), &ct).unwrap()
    };
    assert_eq!(plain, out.status.clone().unwrap(), "the sealed reply carries the chosen status");
    assert_eq!(plain[0], b'0', "the login succeeded");
    assert_eq!(plain.len(), 1 + 88, "the status carries the issued token");
    let token = plain[1..].to_vec();
    assert!(identify(&mut store, &token, NOW + 6, &b("1.1.1.1"), false).is_ok());
    let mail = out.mail.expect("a login mails an alert");
    assert_eq!(mail.email, b("a@example.com"));
    // A garbage frame closes the channel without a reply.
    let out = handle_command(
        &mut store,
        &b("ZZnothing"),
        &server_priv,
        &remote,
        None,
        ip("1.1.1.1"),
        NOW + 7,
        &b("1.1.1.1"),
        false,
    );
    assert!(out.reply.is_none());
}
