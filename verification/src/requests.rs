//! The request shapes of the service's endpoints, as plain data. The
//! transport decodes into these and hands them to the engine.

use vstd::prelude::*;

verus! {

/// Body of a username change: the new value and the bot-gate response.
#[derive(Debug)]
pub struct ChangeUsernameRequest {
    pub value: Vec<u8>,
    pub token: Vec<u8>,
}

/// Body of an email change: the new address and the bot-gate response.
#[derive(Debug)]
pub struct ChangeEmailRequest {
    pub value: Vec<u8>,
    pub token: Vec<u8>,
}

/// Body of a second-factor confirmation: the current code.
#[derive(Debug)]
pub struct ConfirmMfaRequest {
    pub code: Vec<u8>,
}

/// Body of an email-change confirmation: the mailed code.
#[derive(Debug)]
pub struct VerifyEmailRequest {
    pub code: Vec<u8>,
}

/// Body of an application registration.
#[derive(Debug)]
pub struct AppApplicationRequest {
    pub name: Vec<u8>,
    pub redirect_uris: Vec<Vec<u8>>,
}

/// Query of an authorization request.
#[derive(Debug)]
pub struct OAuthApplicationRequestQuery {
    pub response_type: Vec<u8>,
    pub client_id: Vec<u8>,
    pub redirect_uri: Vec<u8>,
    pub scope: Vec<u8>,
}

/// Body of an authorization request: the bot-gate response.
#[derive(Debug)]
pub struct OAuthApplicationRequest {
    pub token: Vec<u8>,
}

/// Query of the data-deletion worklist.
#[derive(Debug)]
pub struct OAuthApplicationToDeleteQuery {
    pub client_id: Vec<u8>,
}

/// Query of the third-party link callback: the authorization code.
#[derive(Debug)]
pub struct PatreonCallbackRequestQuery {
    pub code: Vec<u8>,
}

/// Query of the third-party link start: opaque state to thread through.
#[derive(Debug)]
pub struct PatreonLinkQuery {
    pub state: Vec<u8>,
}

/// Body of the plain confirmation step: the session token.
#[derive(Debug)]
pub struct VerifyRequestBody {
    pub token: Vec<u8>,
}

/// Body of the email or second-factor verification steps: a code and
/// the session token.
#[derive(Debug)]
pub struct VerifyEmailRequestBody {
    pub code: Vec<u8>,
    pub token: Vec<u8>,
}

} // verus!
