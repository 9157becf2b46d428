//! The login command's decisions: where the credential comes from, and that
//! only a credential the server has confirmed is ever stored.
use vstd::prelude::*;
use vstd::string::*;

use crate::config::{Config, ConfigView};
use crate::handshake::HandshakeError;

verus! {

/// How a login obtains its credential.
#[derive(Debug, PartialEq)]
pub enum LoginStart {
    /// A credential was given: verify it straight away, with no browser.
    Verify(String),
    /// Run the browser handshake to obtain one.
    Browser,
}

/// Why a login stored nothing.
#[derive(PartialEq, Eq, Structural, Clone, Copy, Debug)]
pub enum LoginError {
    /// The browser handshake gave no credential.
    Handshake(HandshakeError),
    /// The server did not confirm the credential (for instance, it was revoked).
    VerificationFailure,
}

pub open spec fn login_start(token: Option<String>) -> LoginStart {
    match token {
        Some(t) => LoginStart::Verify(t),
        None => LoginStart::Browser,
    }
}

/// The configuration that a login stores, given whether the server
/// confirmed the credential: none at all when it did not.
pub open spec fn login_result(
    token: Seq<char>,
    api_url: Seq<char>,
    grpc_url: Seq<char>,
    confirmed: bool,
) -> Result<ConfigView, LoginError> {
    if confirmed {
        Ok(ConfigView { token, api_url, grpc_url })
    } else {
        Err(LoginError::VerificationFailure)
    }
}

/// Chooses how to obtain the credential.
pub fn plan_login(token: Option<String>) -> (r: LoginStart)
    ensures
        r == login_start(token),
{
    match token {
        Some(t) => LoginStart::Verify(t),
        None => LoginStart::Browser,
    }
}

/// The credential to verify after a browser handshake, or why there is none.
pub fn handshake_credential(outcome: Result<String, HandshakeError>) -> (r: Result<String, LoginError>)
    ensures
        match outcome {
            Ok(c) => r == Ok::<String, LoginError>(c),
            Err(e) => r == Err::<String, LoginError>(LoginError::Handshake(e)),
        },
{
    match outcome {
        Ok(c) => Ok(c),
        Err(e) => Err(LoginError::Handshake(e)),
    }
}

/// The configuration to store once the server has answered the identity
/// check on `token`: the credential with the URLs it was checked against, or,
/// when the server did not confirm it, nothing (the stored file stays as it
/// was).
pub fn finish_login(token: String, api_url: &str, grpc_url: &str, confirmed: bool) -> (r: Result<
    Config,
    LoginError,
>)
    ensures
        match r {
            Ok(c) => login_result(token@, api_url@, grpc_url@, confirmed) == Ok::<
                ConfigView,
                LoginError,
            >(c@),
            Err(e) => login_result(token@, api_url@, grpc_url@, confirmed) == Err::<
                ConfigView,
                LoginError,
            >(e),
        },
{
    if confirmed {
        Ok(Config { token, api_url: String::from_str(api_url), grpc_url: String::from_str(grpc_url) })
    } else {
        Err(LoginError::VerificationFailure)
    }
}

/// A login given an explicit credential skips the browser and goes straight
/// to verification; whatever the credential's origin, a failed verification
/// stores nothing, and a confirmed one stores exactly that credential.
pub proof fn lemma_login_stores_only_confirmed(
    token: String,
    api_url: Seq<char>,
    grpc_url: Seq<char>,
    confirmed: bool,
)
    ensures
        login_start(Some(token)) == LoginStart::Verify(token),
        !confirmed ==> login_result(token@, api_url, grpc_url, confirmed) is Err,
        confirmed ==> login_result(token@, api_url, grpc_url, confirmed) == Ok::<ConfigView, LoginError>(
            ConfigView { token: token@, api_url, grpc_url },
        ),
{
}

} // verus!
