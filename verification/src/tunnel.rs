//! The encrypted command tunnel: an ephemeral-key handshake, one command
//! frame of fixed-width encrypted segments, and one encrypted status
//! reply.
//!
//! The caller's transport (a bidirectional message stream) and the
//! bot-gate live outside; the library makes every decision: it parses
//! frames strictly, runs the command against the store, and builds the
//! reply. A malformed frame or an undecryptable segment yields no reply
//! at all: the channel is to be closed without an answer.

use vstd::prelude::*;

use crate::bytes::bytes_clone;
use crate::crypto::hash_matches;
use crate::envelope::{b64_decode, b64_encode};
use crate::errors::{ChangePasswordError, LoginError, ResetPasswordError, SignupError};
use crate::login::{purge_login_sessions, spec_login_user_step, try_login};
use crate::model::{now_ok, IPInfo, Session, User};
use crate::password::{
    spec_identify_reset, try_change_password, try_change_password_without_account,
    try_reset_password, ResetRequest, PASSWORD_COOLDOWN,
};
use crate::signup::{spec_email_valid, try_signup};
use crate::store::{email_key, find_by, username_key, Store};
use crate::token::{spec_identify, spec_verify_state};

use rsa::pkcs8::{DecodePublicKey, EncodePublicKey};
use sha2::Sha256;

verus! {

/// The RSA key pair halves of the handshake. Relied on as opaque values;
/// nothing inside them is read by verified code.
#[verifier::external_type_specification]
#[verifier::external_body]
pub struct ExRsaPrivateKey(rsa::RsaPrivateKey);

#[verifier::external_type_specification]
#[verifier::external_body]
pub struct ExRsaPublicKey(rsa::RsaPublicKey);

/// Relies on rsa's `RsaPrivateKey::new` and `RsaPublicKey::from`: a
/// fresh random 2048-bit key pair for one handshake — wide enough that
/// a status frame carrying a whole token still fits under OAEP; nothing
/// is promised of the values.
#[verifier::external_body]
pub fn generate_keypair() -> Option<(rsa::RsaPrivateKey, rsa::RsaPublicKey)> {
    match rsa::RsaPrivateKey::new(&mut rand::thread_rng(), 2048) {
        Err(_) => None,
        Ok(private_key) => {
            let public_key = rsa::RsaPublicKey::from(&private_key);
            Some((private_key, public_key))
        },
    }
}

/// Relies on rsa's `RsaPublicKey::encrypt` with OAEP over SHA-256: the
/// ciphertext is randomized, so nothing is promised of it; over-long
/// plaintext is refused by the crate and reported as `None`.
#[verifier::external_body]
pub fn rsa_encrypt(data: &Vec<u8>, key: &rsa::RsaPublicKey) -> Option<Vec<u8>> {
    match key.encrypt(&mut rand::thread_rng(), rsa::Oaep::new::<Sha256>(), data.as_slice()) {
        Err(_) => None,
        Ok(ct) => Some(ct),
    }
}

/// Relies on rsa's `RsaPrivateKey::decrypt` with OAEP over SHA-256: a
/// ciphertext that was not produced under this key's public half is
/// rejected; nothing more can be stated of an opaque key.
#[verifier::external_body]
pub fn rsa_decrypt(data: &Vec<u8>, key: &rsa::RsaPrivateKey) -> Option<Vec<u8>> {
    match key.decrypt(rsa::Oaep::new::<Sha256>(), data.as_slice()) {
        Err(_) => None,
        Ok(pt) => Some(pt),
    }
}

/// Relies on rsa's `EncodePublicKey::to_public_key_der`.
#[verifier::external_body]
pub fn export_public_der(key: &rsa::RsaPublicKey) -> Option<Vec<u8>> {
    match key.to_public_key_der() {
        Err(_) => None,
        Ok(der) => Some(der.as_bytes().to_vec()),
    }
}

/// Relies on rsa's `DecodePublicKey::from_public_key_der`.
#[verifier::external_body]
pub fn import_public_der(der: &Vec<u8>) -> Option<rsa::RsaPublicKey> {
    match rsa::RsaPublicKey::from_public_key_der(der) {
        Err(_) => None,
        Ok(k) => Some(k),
    }
}

/// One command frame as received: a two-byte opcode and its payload.
#[derive(Debug)]
pub struct ClientCommand {
    pub cmd: Vec<u8>,
    pub data: Vec<u8>,
}

/// Split a frame into opcode and payload.
pub fn parse_client_command(frame: &Vec<u8>) -> (r: Option<ClientCommand>)
    ensures
        r is Some <==> frame@.len() >= 2,
        r matches Some(c) ==> c.cmd@ == frame@.subrange(0, 2) && c.data@ == frame@.skip(2),
{
    if frame.len() < 2 {
        return None;
    }
    let cmd = crate::bytes::bytes_range(frame, 0, 2);
    let data = crate::bytes::bytes_range(frame, 2, frame.len());
    proof {
        assert(data@ =~= frame@.skip(2));
    }
    Some(ClientCommand { cmd, data })
}

/// The closed set of opcodes, with their wire form.
#[derive(Clone, Copy, Debug, PartialEq, Eq, Structural)]
pub enum Opcode {
    /// `AL`: log in.
    Login,
    /// `AS`: sign up.
    Signup,
    /// `EP`: change the password of an authenticated session.
    ChangePassword,
    /// `RP`: request a password reset.
    RequestReset,
    /// `NP`: set a new password from a reset token.
    NewPassword,
}

/// The wire form of each opcode.
pub open spec fn spec_opcode_wire(op: Opcode) -> Seq<u8> {
    match op {
        Opcode::Login => seq![0x41u8, 0x4c],
        Opcode::Signup => seq![0x41u8, 0x53],
        Opcode::ChangePassword => seq![0x45u8, 0x50],
        Opcode::RequestReset => seq![0x52u8, 0x50],
        Opcode::NewPassword => seq![0x4eu8, 0x50],
    }
}

/// Which opcode, if any, two wire bytes denote.
pub open spec fn spec_opcode_of(w: Seq<u8>) -> Option<Opcode> {
    if w == spec_opcode_wire(Opcode::Login) {
        Some(Opcode::Login)
    } else if w == spec_opcode_wire(Opcode::Signup) {
        Some(Opcode::Signup)
    } else if w == spec_opcode_wire(Opcode::ChangePassword) {
        Some(Opcode::ChangePassword)
    } else if w == spec_opcode_wire(Opcode::RequestReset) {
        Some(Opcode::RequestReset)
    } else if w == spec_opcode_wire(Opcode::NewPassword) {
        Some(Opcode::NewPassword)
    } else {
        None
    }
}

/// Decode an opcode from its wire bytes.
pub fn opcode_of(w: &Vec<u8>) -> (r: Option<Opcode>)
    ensures
        r == spec_opcode_of(w@),
{
    if w.len() != 2 {
        proof {
            assert(spec_opcode_of(w@) is None);
        }
        return None;
    }
    let b0 = w[0];
    let b1 = w[1];
    proof {
        assert(w@ =~= seq![w@[0], w@[1]]);
    }
    if b0 == 0x41 && b1 == 0x4c {
        proof {
            assert(w@ =~= spec_opcode_wire(Opcode::Login));
        }
        Some(Opcode::Login)
    } else if b0 == 0x41 && b1 == 0x53 {
        proof {
            assert(w@ =~= spec_opcode_wire(Opcode::Signup));
        }
        Some(Opcode::Signup)
    } else if b0 == 0x45 && b1 == 0x50 {
        proof {
            assert(w@ =~= spec_opcode_wire(Opcode::ChangePassword));
        }
        Some(Opcode::ChangePassword)
    } else if b0 == 0x52 && b1 == 0x50 {
        proof {
            assert(w@ =~= spec_opcode_wire(Opcode::RequestReset));
        }
        Some(Opcode::RequestReset)
    } else if b0 == 0x4e && b1 == 0x50 {
        proof {
            assert(w@ =~= spec_opcode_wire(Opcode::NewPassword));
        }
        Some(Opcode::NewPassword)
    } else {
        proof {
            assert(w@ != spec_opcode_wire(Opcode::Login));
            assert(w@ != spec_opcode_wire(Opcode::Signup));
            assert(w@ != spec_opcode_wire(Opcode::ChangePassword));
            assert(w@ != spec_opcode_wire(Opcode::RequestReset));
            assert(w@ != spec_opcode_wire(Opcode::NewPassword));
        }
        None
    }
}

/// Length of one fixed-width encrypted segment: a 2048-bit RSA
/// ciphertext in base64.
pub const SEGMENT_LEN: usize = 344;

/// Length of a plain reset token inside an `NP` payload.
pub const RESET_TOKEN_LEN: usize = 88;

/// Split a payload at a fixed offset, rejecting a short frame.
pub fn split_payload(data: &Vec<u8>, at: usize) -> (r: Option<(Vec<u8>, Vec<u8>)>)
    ensures
        r is Some <==> at <= data@.len(),
        r matches Some(p) ==> p.0@ == data@.subrange(0, at as int) && p.1@ == data@.skip(
            at as int,
        ),
{
    if data.len() < at {
        return None;
    }
    let head = crate::bytes::bytes_range(data, 0, at);
    let tail = crate::bytes::bytes_range(data, at, data.len());
    proof {
        assert(tail@ =~= data@.skip(at as int));
    }
    Some((head, tail))
}

/// The decimal digits of a non-negative number.
pub open spec fn spec_decimal(n: int) -> Seq<u8>
    decreases n,
{
    if n < 10 {
        seq![(0x30 + if n >= 0 { n } else { 0 }) as u8]
    } else {
        spec_decimal(n / 10).push((0x30 + n % 10) as u8)
    }
}

/// Render a non-negative number in decimal.
pub fn decimal_bytes(n: i64) -> (r: Vec<u8>)
    requires
        n >= 0,
    ensures
        r@ == spec_decimal(n as int),
    decreases n,
{
    if n < 10 {
        let mut v: Vec<u8> = Vec::new();
        v.push(0x30 + (n as u8));
        proof {
            assert(v@ =~= spec_decimal(n as int));
        }
        v
    } else {
        let mut v = decimal_bytes(n / 10);
        v.push(0x30 + ((n % 10) as u8));
        v
    }
}

/// The encrypted status replies: `0` plus a payload on success, `1` plus
/// a disambiguating digit (and context) on error.
pub open spec fn spec_status_ok(payload: Seq<u8>) -> Seq<u8> {
    seq![0x30u8] + payload
}

/// Build `0 || payload`.
pub fn status_ok(payload: &Vec<u8>) -> (r: Vec<u8>)
    ensures
        r@ == spec_status_ok(payload@),
{
    let mut v: Vec<u8> = Vec::new();
    v.push(0x30);
    let r = crate::bytes::bytes_concat(&v, payload);
    proof {
        assert(r@ =~= spec_status_ok(payload@));
    }
    r
}

/// Build `1 || code-digit || context`.
pub fn status_err(code: u8, context: &Vec<u8>) -> (r: Vec<u8>)
    requires
        code <= 9,
    ensures
        r@ == seq![0x31u8, (0x30 + code) as u8] + context@,
{
    let mut v: Vec<u8> = Vec::new();
    v.push(0x31);
    v.push(0x30 + code);
    let r = crate::bytes::bytes_concat(&v, context);
    proof {
        assert(v@ =~= seq![0x31u8, (0x30 + code) as u8]);
    }
    r
}

/// The wire status of a login outcome, or nothing when the channel must
/// close without a reply (an internal fault).
pub fn login_status(r: &Result<crate::login::LoginSuccess, LoginError>) -> (w: Option<Vec<u8>>)
    ensures
        match r {
            Ok(s) => w matches Some(v) && v@ == spec_status_ok(s.token@),
            Err(LoginError::BadLength) => w matches Some(v) && v@ == seq![0x31u8, 0x30],
            Err(LoginError::BadCredentials) => w matches Some(v) && v@ == seq![0x31u8, 0x31],
            Err(LoginError::Locked { until }) => {
                &&& *until >= 0 ==> (w matches Some(v) && v@ == seq![0x31u8, 0x32] + spec_decimal(
                    *until as int,
                ))
                &&& *until < 0 ==> w is None
            },
            Err(LoginError::Internal) => w is None,
        },
{
    match r {
        Ok(s) => Some(status_ok(&s.token)),
        Err(LoginError::BadLength) => {
            let e = status_err(0, &Vec::new());
            proof {
                assert(e@ =~= seq![0x31u8, 0x30]);
            }
            Some(e)
        },
        Err(LoginError::BadCredentials) => {
            let e = status_err(1, &Vec::new());
            proof {
                assert(e@ =~= seq![0x31u8, 0x31]);
            }
            Some(e)
        },
        Err(LoginError::Locked { until }) => {
            if *until >= 0 {
                let ts = decimal_bytes(*until);
                let e = status_err(2, &ts);
                Some(e)
            } else {
                None
            }
        },
        Err(LoginError::Internal) => None,
    }
}

/// The wire status of a signup outcome.
pub fn signup_status(r: &Result<crate::signup::SignupSuccess, SignupError>) -> (w: Option<Vec<u8>>)
    ensures
        match r {
            Ok(s) => w matches Some(v) && v@ == spec_status_ok(s.token@),
            Err(SignupError::BadLength) => w matches Some(v) && v@ == seq![0x31u8, 0x30],
            Err(SignupError::BadEmail) => w matches Some(v) && v@ == seq![0x31u8, 0x31],
            Err(SignupError::UsernameTaken) => w matches Some(v) && v@ == seq![0x31u8, 0x32],
            Err(SignupError::EmailTaken) => w matches Some(v) && v@ == seq![0x31u8, 0x33],
            Err(SignupError::Internal) => w is None,
        },
{
    match r {
        Ok(s) => Some(status_ok(&s.token)),
        Err(SignupError::BadLength) => {
            let e = status_err(0, &Vec::new());
            proof {
                assert(e@ =~= seq![0x31u8, 0x30]);
            }
            Some(e)
        },
        Err(SignupError::BadEmail) => {
            let e = status_err(1, &Vec::new());
            proof {
                assert(e@ =~= seq![0x31u8, 0x31]);
            }
            Some(e)
        },
        Err(SignupError::UsernameTaken) => {
            let e = status_err(2, &Vec::new());
            proof {
                assert(e@ =~= seq![0x31u8, 0x32]);
            }
            Some(e)
        },
        Err(SignupError::EmailTaken) => {
            let e = status_err(3, &Vec::new());
            proof {
                assert(e@ =~= seq![0x31u8, 0x33]);
            }
            Some(e)
        },
        Err(SignupError::Internal) => None,
    }
}

/// The wire status of an authenticated password change.
pub fn change_password_status(r: &Result<(), ChangePasswordError>) -> (w: Vec<u8>)
    ensures
        match r {
            Ok(_) => w@ == seq![0x30u8],
            Err(ChangePasswordError::BadLength) => w@ == seq![0x31u8, 0x32],
            Err(ChangePasswordError::BadToken) => w@ == seq![0x31u8, 0x30],
            Err(ChangePasswordError::RateLimited) => w@ == seq![0x31u8, 0x33],
            Err(ChangePasswordError::WrongPassword) => w@ == seq![0x31u8, 0x31],
        },
{
    match r {
        Ok(_) => {
            let v = status_ok(&Vec::new());
            proof {
                assert(v@ =~= seq![0x30u8]);
            }
            v
        },
        Err(ChangePasswordError::BadLength) => {
            let e = status_err(2, &Vec::new());
            proof {
                assert(e@ =~= seq![0x31u8, 0x32]);
            }
            e
        },
        Err(ChangePasswordError::BadToken) => {
            let e = status_err(0, &Vec::new());
            proof {
                assert(e@ =~= seq![0x31u8, 0x30]);
            }
            e
        },
        Err(ChangePasswordError::RateLimited) => {
            let e = status_err(3, &Vec::new());
            proof {
                assert(e@ =~= seq![0x31u8, 0x33]);
            }
            e
        },
        Err(ChangePasswordError::WrongPassword) => {
            let e = status_err(1, &Vec::new());
            proof {
                assert(e@ =~= seq![0x31u8, 0x31]);
            }
            e
        },
    }
}

/// The wire status of setting a new password from a reset token.
pub fn new_password_status(r: &Result<(), ResetPasswordError>) -> (w: Vec<u8>)
    ensures
        match r {
            Ok(_) => w@ == seq![0x30u8],
            Err(ResetPasswordError::BadLength) => w@ == seq![0x31u8, 0x32],
            Err(ResetPasswordError::BadToken) => w@ == seq![0x31u8, 0x30],
            Err(ResetPasswordError::RateLimited) => w@ == seq![0x31u8, 0x31],
        },
{
    match r {
        Ok(_) => {
            let v = status_ok(&Vec::new());
            proof {
                assert(v@ =~= seq![0x30u8]);
            }
            v
        },
        Err(ResetPasswordError::BadLength) => {
            let e = status_err(2, &Vec::new());
            proof {
                assert(e@ =~= seq![0x31u8, 0x32]);
            }
            e
        },
        Err(ResetPasswordError::BadToken) => {
            let e = status_err(0, &Vec::new());
            proof {
                assert(e@ =~= seq![0x31u8, 0x30]);
            }
            e
        },
        Err(ResetPasswordError::RateLimited) => {
            let e = status_err(1, &Vec::new());
            proof {
                assert(e@ =~= seq![0x31u8, 0x31]);
            }
            e
        },
    }
}

/// Encrypt a reply under the caller's ephemeral key and encode it for
/// the wire.
pub fn seal_reply(reply: &Vec<u8>, remote: &rsa::RsaPublicKey) -> Option<Vec<u8>> {
    match rsa_encrypt(reply, remote) {
        None => None,
        Some(ct) => Some(b64_encode(&ct)),
    }
}

/// The public-key message of the handshake: the server's ephemeral
/// public key, DER-encoded and carried in base64.
pub fn handshake_key_message(key: &rsa::RsaPublicKey) -> Option<Vec<u8>> {
    match export_public_der(key) {
        None => None,
        Some(der) => Some(b64_encode(&der)),
    }
}

/// Read the caller's ephemeral public key from its base64 DER message.
pub fn read_client_key(msg: &Vec<u8>) -> Option<rsa::RsaPublicKey> {
    match b64_decode(msg) {
        None => None,
        Some(der) => import_public_der(&der),
    }
}

/// The fixed acknowledgement (`OK`) that confirms the channel before any
/// secret flows, encrypted under the caller's key.
pub fn handshake_ack(remote: &rsa::RsaPublicKey) -> Option<Vec<u8>> {
    let mut ok: Vec<u8> = Vec::new();
    ok.push(0x4f);
    ok.push(0x4b);
    seal_reply(&ok, remote)
}

/// Decrypt one base64 segment of a command payload.
fn open_segment(seg: &Vec<u8>, key: &rsa::RsaPrivateKey) -> Option<Vec<u8>> {
    match b64_decode(seg) {
        None => None,
        Some(ct) => rsa_decrypt(&ct, key),
    }
}

/// What a tunnel command asks the mailer to send; the delivery itself
/// is outside the engine and its failure rolls nothing back.
#[derive(Debug)]
pub struct MailNotice {
    pub kind: MailKind,
    pub username: Vec<u8>,
    pub email: Vec<u8>,
    /// The code, token or address text the template carries.
    pub payload: Vec<u8>,
}

/// The mails the tunnel flows occasion.
#[derive(Clone, Copy, Debug, PartialEq, Eq, Structural)]
pub enum MailKind {
    /// A fresh login; the payload is the observed address.
    LoginAlert,
    /// A fresh account; the payload is the email verification code.
    SignupVerification,
    /// A requested reset; the payload is the raw reset token.
    PasswordReset,
}

/// A reply to encrypt (or an order to close), and at most one mail to
/// send.
#[derive(Debug)]
pub struct TunnelOutcome {
    /// The status frame that was chosen, before encryption; `None`
    /// closes the channel without a reply.
    pub status: Option<Vec<u8>>,
    /// The status sealed under the caller's key; `None` when no status
    /// was chosen or the sealing call failed.
    pub reply: Option<Vec<u8>>,
    pub mail: Option<MailNotice>,
}

/// What one login command, with some credential pair, may have done to
/// the user and session tables; the shape `try_login`'s contract pins.
pub open spec fn spec_login_effect(
    users0: Seq<User>,
    sessions0: Seq<Session>,
    users1: Seq<User>,
    sessions1: Seq<Session>,
    username: Seq<u8>,
    password: Seq<u8>,
    now: i64,
) -> bool {
    let bad_len = username.len() == 0 || username.len() > 50 || password.len() > 50;
    if bad_len {
        users1 == users0 && sessions1 == sessions0
    } else {
        match find_by(users0, username_key(), username) {
            None => users1 == users0 && sessions1 == sessions0,
            Some(ui) => {
                let stepped = spec_login_user_step(users0[ui], password, now);
                &&& users1 == users0.update(ui, stepped.0)
                &&& (!(stepped.1 is Accepted) ==> sessions1 == sessions0)
                &&& (stepped.1 is Accepted ==> {
                    let purged = purge_login_sessions(sessions0, users0[ui].id@, now);
                    sessions1 == purged || (exists|sess: Session| sessions1 == purged.push(sess))
                })
            },
        }
    }
}

/// What one signup command, with some inputs, may have done: nothing, or
/// one fresh unverified user with one fresh invalid session.
pub open spec fn spec_signup_effect(
    users0: Seq<User>,
    sessions0: Seq<Session>,
    users1: Seq<User>,
    sessions1: Seq<Session>,
    username: Seq<u8>,
    password: Seq<u8>,
    email: Seq<u8>,
) -> bool {
    let bad_len = username.len() == 0 || username.len() > 50 || password.len() > 50;
    let rejected = bad_len || !spec_email_valid(email) || find_by(
        users0,
        username_key(),
        username,
    ) is Some || find_by(users0, email_key(), email) is Some;
    if rejected {
        users1 == users0 && sessions1 == sessions0
    } else {
        (users1 == users0 && sessions1 == sessions0) || (exists|u: User, sess: Session|
            {
                &&& users1 == users0.push(u)
                &&& sessions1 == sessions0.push(sess)
                &&& u.username@ == username
                &&& hash_matches(u.password@, password)
                &&& u.email@ == email
                &&& !u.email_verified
                &&& !u.has_mfa
                &&& !sess.valid
                &&& sess.user_id@ == u.id@
            })
    }
}

/// What one authenticated password change, with some password pair, may
/// have done; the shape `try_change_password`'s contract pins.
pub open spec fn spec_change_password_effect(
    users0: Seq<User>,
    sessions0: Seq<Session>,
    users1: Seq<User>,
    sessions1: Seq<Session>,
    token: Seq<u8>,
    new_password: Seq<u8>,
    old_password: Seq<u8>,
    now: i64,
    ip: Seq<u8>,
    bind_ip: bool,
) -> bool {
    let bad_len = old_password.len() > 50 || new_password.len() > 50;
    let o = spec_identify(users0, sessions0, token, now, ip, bind_ip);
    if bad_len {
        users1 == users0 && sessions1 == sessions0
    } else {
        &&& sessions1 == o.sessions
        &&& match o.result {
            Err(_) => users1 == users0,
            Ok((ui, si)) => {
                let u = users0[ui];
                let sess = sessions0[si];
                if !(spec_verify_state(u, sess) is Verified) || u.last_password_change
                    + PASSWORD_COOLDOWN > now || !hash_matches(u.password@, old_password) {
                    users1 == users0
                } else {
                    exists|u1: User|
                        {
                            &&& users1 == users0.update(ui, u1)
                            &&& u1 == User {
                                password: u1.password,
                                last_password_change: now,
                                ..u
                            }
                            &&& hash_matches(u1.password@, new_password)
                        }
                }
            },
        }
    }
}

/// What one reset request, for some address, may have done: nothing, or
/// a fresh reset hash and stamp on the owning user.
pub open spec fn spec_reset_effect(
    users0: Seq<User>,
    users1: Seq<User>,
    email: Seq<u8>,
    now: i64,
) -> bool {
    if !spec_email_valid(email) || find_by(users0, email_key(), email) is None {
        users1 == users0
    } else {
        let ui = find_by(users0, email_key(), email)->0;
        exists|u1: User|
            {
                &&& users1 == users0.update(ui, u1)
                &&& u1 == User {
                    password_change_token: u1.password_change_token,
                    password_change_token_generated: now,
                    ..users0[ui]
                }
            }
    }
}

/// What setting a new password from a reset token, with some password,
/// may have done; the token is the plain first half of the payload.
pub open spec fn spec_new_password_effect(
    users0: Seq<User>,
    users1: Seq<User>,
    token: Seq<u8>,
    password: Seq<u8>,
    now: i64,
) -> bool {
    let o = spec_identify_reset(users0, token, now);
    if password.len() > 50 {
        users1 == users0
    } else {
        match o.result {
            Err(_) => users1 == o.users,
            Ok(ui) => {
                let u = users0[ui];
                if u.last_password_change + PASSWORD_COOLDOWN > now {
                    users1 == users0
                } else {
                    exists|u1: User|
                        {
                            &&& users1 == users0.update(ui, u1)
                            &&& u1 == User {
                                password: u1.password,
                                last_password_change: now,
                                ..u
                            }
                            &&& hash_matches(u1.password@, password)
                        }
                }
            },
        }
    }
}

/// Execute one command frame against the store and build the encrypted
/// reply.
///
/// Strict framing: an unknown opcode, a payload shorter than its
/// opcode's fixed offsets, a command that needs a session token when
/// none was presented, a segment that does not decrypt, or an internal
/// storage fault ends the channel without a reply and (except after a
/// completed flow) without a store change. Otherwise the named flow runs
/// — its own contract pins the store transition, and the per-opcode
/// effect predicates below bound what any decrypted inputs could have
/// done — and the chosen status is handed back both plain and sealed
/// under the caller's key. On the reset flow the only statuses are the
/// bad-address status and the one success status, which is the same
/// whether or not an account holds the address: the reply does not
/// disclose which.
#[verifier::rlimit(100)]
pub fn handle_command(
    store: &mut Store,
    frame: &Vec<u8>,
    private_key: &rsa::RsaPrivateKey,
    remote_key: &rsa::RsaPublicKey,
    session_token: Option<&Vec<u8>>,
    ip_info: IPInfo,
    now: i64,
    observed_ip: &Vec<u8>,
    bind_ip: bool,
) -> (w: TunnelOutcome)
    requires
        old(store).wf(),
        now_ok(now),
    ensures
        final(store).wf(),
        final(store).oauth_apps@ == old(store).oauth_apps@,
        final(store).oauth_codes@ == old(store).oauth_codes@,
        final(store).oauth_sessions@ == old(store).oauth_sessions@,
        w.status is None ==> w.reply is None && w.mail is None,
        w.reply is Some ==> w.status is Some,
        ({
            let op = spec_opcode_of(frame@.subrange(0, 2));
            let data = frame@.skip(2);
            let u0 = old(store).users@;
            let s0 = old(store).sessions@;
            let u1 = final(store).users@;
            let s1 = final(store).sessions@;
            let untouched = u1 == u0 && s1 == s0;
            let silent = w.status is None && w.mail is None && untouched;
            &&& (frame@.len() < 2 || op is None ==> silent)
            &&& (frame@.len() >= 2 ==> {
                &&& (op == Some(Opcode::Login) && data.len() < SEGMENT_LEN ==> silent)
                &&& (op == Some(Opcode::Signup) && data.len() < 2 * SEGMENT_LEN ==> silent)
                &&& (op == Some(Opcode::ChangePassword) && (session_token is None || data.len()
                    < SEGMENT_LEN) ==> silent)
                &&& (op == Some(Opcode::NewPassword) && data.len() < RESET_TOKEN_LEN ==> silent)
                &&& (op == Some(Opcode::Login) ==> untouched || (exists|un: Seq<u8>, pw: Seq<u8>|
                    spec_login_effect(u0, s0, u1, s1, un, pw, now)))
                &&& (op == Some(Opcode::Signup) ==> untouched || (exists|
                    un: Seq<u8>,
                    pw: Seq<u8>,
                    em: Seq<u8>,
                |
                    spec_signup_effect(u0, s0, u1, s1, un, pw, em)))
                &&& (op == Some(Opcode::ChangePassword) ==> (session_token matches Some(t)
                    ==> untouched || (exists|np: Seq<u8>, op_: Seq<u8>|
                    spec_change_password_effect(
                        u0,
                        s0,
                        u1,
                        s1,
                        t@,
                        np,
                        op_,
                        now,
                        observed_ip@,
                        bind_ip,
                    ))))
                &&& (op == Some(Opcode::RequestReset) ==> {
                    &&& s1 == s0
                    &&& (u1 == u0 || (exists|em: Seq<u8>| spec_reset_effect(u0, u1, em, now)))
                    &&& (w.status matches Some(st) ==> st@ == seq![0x31u8, 0x30] || st@
                        == spec_status_ok(Seq::<u8>::empty()))
                })
                &&& (op == Some(Opcode::NewPassword) ==> {
                    &&& s1 == s0
                    &&& (u1 == u0 || (exists|pw: Seq<u8>|
                        spec_new_password_effect(
                            u0,
                            u1,
                            data.subrange(0, RESET_TOKEN_LEN as int),
                            pw,
                            now,
                        )))
                })
            })
        }),
{
    let closed = TunnelOutcome { status: None, reply: None, mail: None };
    let cmd = match parse_client_command(frame) {
        None => {
            return closed;
        },
        Some(c) => c,
    };
    let op = match opcode_of(&cmd.cmd) {
        None => {
            return closed;
        },
        Some(op) => op,
    };
    match op {
        Opcode::Login => {
            let (seg1, seg2) = match split_payload(&cmd.data, SEGMENT_LEN) {
                None => {
                    return closed;
                },
                Some(p) => p,
            };
            let username = match open_segment(&seg1, private_key) {
                None => {
                    return closed;
                },
                Some(v) => v,
            };
            let password = match open_segment(&seg2, private_key) {
                None => {
                    return closed;
                },
                Some(v) => v,
            };
            let r = try_login(store, &username, &password, ip_info, now);
            proof {
                if r is Ok {
                    crate::store::lemma_find_by_properties(
                        old(store).users@,
                        username_key(),
                        username@,
                    );
                }
                let u0 = old(store).users@;
                let s0 = old(store).sessions@;
                let bad_len = username@.len() == 0 || username@.len() > 50 || password@.len()
                    > 50;
                if !bad_len {
                    match find_by(u0, username_key(), username@) {
                        None => {},
                        Some(ui) => {
                            let stepped = spec_login_user_step(u0[ui], password@, now);
                            if stepped.1 is Accepted && r is Ok {
                                let purged = purge_login_sessions(s0, u0[ui].id@, now);
                                assert(store.sessions@ == purged.push(store.sessions@.last()));
                                assert(exists|sess: Session|
                                    store.sessions@ == purged.push(sess));
                            }
                        },
                    }
                }
                assert(spec_login_effect(
                    u0,
                    s0,
                    store.users@,
                    store.sessions@,
                    username@,
                    password@,
                    now,
                ));
            }
            let mail = match &r {
                Ok(s) => Some(
                    MailNotice {
                        kind: MailKind::LoginAlert,
                        username: bytes_clone(&store.users[s.user].username),
                        email: bytes_clone(&store.users[s.user].email),
                        payload: bytes_clone(observed_ip),
                    },
                ),
                Err(_) => None,
            };
            match login_status(&r) {
                None => TunnelOutcome { status: None, reply: None, mail: None },
                Some(reply) => {
                    let sealed = seal_reply(&reply, remote_key);
                    TunnelOutcome { status: Some(reply), reply: sealed, mail }
                },
            }
        },
        Opcode::Signup => {
            let (seg1, rest) = match split_payload(&cmd.data, SEGMENT_LEN) {
                None => {
                    return closed;
                },
                Some(p) => p,
            };
            let (seg2, seg3) = match split_payload(&rest, SEGMENT_LEN) {
                None => {
                    return closed;
                },
                Some(p) => p,
            };
            let username = match open_segment(&seg1, private_key) {
                None => {
                    return closed;
                },
                Some(v) => v,
            };
            let password = match open_segment(&seg2, private_key) {
                None => {
                    return closed;
                },
                Some(v) => v,
            };
            let email = match open_segment(&seg3, private_key) {
                None => {
                    return closed;
                },
                Some(v) => v,
            };
            let r = try_signup(store, &username, &password, &email, ip_info, now);
            proof {
                if r is Ok {
                    let u = store.users@.last();
                    let sess = store.sessions@.last();
                    assert(store.users@ == old(store).users@.push(u));
                    assert(store.sessions@ == old(store).sessions@.push(sess));
                    assert(exists|uu: User, ss: Session|
                        {
                            &&& store.users@ == old(store).users@.push(uu)
                            &&& store.sessions@ == old(store).sessions@.push(ss)
                            &&& uu.username@ == username@
                            &&& hash_matches(uu.password@, password@)
                            &&& uu.email@ == email@
                            &&& !uu.email_verified
                            &&& !uu.has_mfa
                            &&& !ss.valid
                            &&& ss.user_id@ == uu.id@
                        });
                }
                assert(spec_signup_effect(
                    old(store).users@,
                    old(store).sessions@,
                    store.users@,
                    store.sessions@,
                    username@,
                    password@,
                    email@,
                ));
            }
            let mail = match &r {
                Ok(s) => Some(
                    MailNotice {
                        kind: MailKind::SignupVerification,
                        username: bytes_clone(&store.users[s.user].username),
                        email: bytes_clone(&store.users[s.user].email),
                        payload: bytes_clone(&s.verification_code),
                    },
                ),
                Err(_) => None,
            };
            match signup_status(&r) {
                None => TunnelOutcome { status: None, reply: None, mail: None },
                Some(reply) => {
                    let sealed = seal_reply(&reply, remote_key);
                    TunnelOutcome { status: Some(reply), reply: sealed, mail }
                },
            }
        },
        Opcode::ChangePassword => {
            let token = match session_token {
                None => {
                    return closed;
                },
                Some(t) => bytes_clone(t),
            };
            let (seg1, seg2) = match split_payload(&cmd.data, SEGMENT_LEN) {
                None => {
                    return closed;
                },
                Some(p) => p,
            };
            let new_password = match open_segment(&seg1, private_key) {
                None => {
                    return closed;
                },
                Some(v) => v,
            };
            let old_password = match open_segment(&seg2, private_key) {
                None => {
                    return closed;
                },
                Some(v) => v,
            };
            let r = try_change_password(
                store,
                &token,
                &new_password,
                &old_password,
                now,
                observed_ip,
                bind_ip,
            );
            proof {
                let u0 = old(store).users@;
                let s0 = old(store).sessions@;
                let o = spec_identify(u0, s0, token@, now, observed_ip@, bind_ip);
                let bad_len = old_password@.len() > 50 || new_password@.len() > 50;
                if !bad_len {
                    match o.result {
                        Ok((ui, si)) => {
                            let u = u0[ui];
                            let sess = s0[si];
                            if spec_verify_state(u, sess) is Verified && u.last_password_change
                                + PASSWORD_COOLDOWN <= now && hash_matches(
                                u.password@,
                                old_password@,
                            ) {
                                assert(store.users@ == u0.update(ui, store.users@[ui]));
                                assert(exists|u1: User|
                                    {
                                        &&& store.users@ == u0.update(ui, u1)
                                        &&& u1 == User {
                                            password: u1.password,
                                            last_password_change: now,
                                            ..u
                                        }
                                        &&& hash_matches(u1.password@, new_password@)
                                    });
                            }
                        },
                        Err(_) => {},
                    }
                }
                assert(spec_change_password_effect(
                    u0,
                    s0,
                    store.users@,
                    store.sessions@,
                    token@,
                    new_password@,
                    old_password@,
                    now,
                    observed_ip@,
                    bind_ip,
                ));
            }
            let reply = change_password_status(&r);
            let sealed = seal_reply(&reply, remote_key);
            TunnelOutcome { status: Some(reply), reply: sealed, mail: None }
        },
        Opcode::RequestReset => {
            let email = match open_segment(&cmd.data, private_key) {
                None => {
                    return closed;
                },
                Some(v) => v,
            };
            let r = try_reset_password(store, &email, now);
            match r {
                ResetRequest::BadEmail => {
                    let e = status_err(0, &Vec::new());
                    proof {
                        assert(e@ =~= seq![0x31u8, 0x30]);
                    }
                    let sealed = seal_reply(&e, remote_key);
                    TunnelOutcome { status: Some(e), reply: sealed, mail: None }
                },
                ResetRequest::NoAccount => {
                    let v = status_ok(&Vec::new());
                    let sealed = seal_reply(&v, remote_key);
                    TunnelOutcome { status: Some(v), reply: sealed, mail: None }
                },
                ResetRequest::Sent { token, user } => {
                    // The raw token leaves the engine only towards the
                    // mailer, never over the tunnel; the status equals
                    // the one sent when no account holds the address.
                    proof {
                        let u0 = old(store).users@;
                        let ui = find_by(u0, email_key(), email@)->0;
                        assert(store.users@ == u0.update(ui, store.users@[ui]));
                        assert(exists|u1: User|
                            {
                                &&& store.users@ == u0.update(ui, u1)
                                &&& u1 == User {
                                    password_change_token: u1.password_change_token,
                                    password_change_token_generated: now,
                                    ..u0[ui]
                                }
                            });
                        assert(spec_reset_effect(u0, store.users@, email@, now));
                    }
                    let mail = Some(
                        MailNotice {
                            kind: MailKind::PasswordReset,
                            username: bytes_clone(&store.users[user].username),
                            email: bytes_clone(&store.users[user].email),
                            payload: token,
                        },
                    );
                    let v = status_ok(&Vec::new());
                    let sealed = seal_reply(&v, remote_key);
                    TunnelOutcome { status: Some(v), reply: sealed, mail }
                },
            }
        },
        Opcode::NewPassword => {
            let (token, seg) = match split_payload(&cmd.data, RESET_TOKEN_LEN) {
                None => {
                    return closed;
                },
                Some(p) => p,
            };
            let password = match open_segment(&seg, private_key) {
                None => {
                    return closed;
                },
                Some(v) => v,
            };
            let r = try_change_password_without_account(store, &token, &password, now);
            proof {
                let u0 = old(store).users@;
                assert(token@ =~= frame@.skip(2).subrange(0, RESET_TOKEN_LEN as int));
                let o = spec_identify_reset(u0, token@, now);
                if password@.len() <= 50 {
                    match o.result {
                        Ok(ui) => {
                            if u0[ui].last_password_change + PASSWORD_COOLDOWN <= now {
                                assert(store.users@ == u0.update(ui, store.users@[ui]));
                                assert(exists|u1: User|
                                    {
                                        &&& store.users@ == u0.update(ui, u1)
                                        &&& u1 == User {
                                            password: u1.password,
                                            last_password_change: now,
                                            ..u0[ui]
                                        }
                                        &&& hash_matches(u1.password@, password@)
                                    });
                            }
                        },
                        Err(_) => {},
                    }
                }
                assert(spec_new_password_effect(u0, store.users@, token@, password@, now));
            }
            let reply = new_password_status(&r);
            let sealed = seal_reply(&reply, remote_key);
            TunnelOutcome { status: Some(reply), reply: sealed, mail: None }
        },
    }
}

} // verus!
