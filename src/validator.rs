//! The bearer-credential validator: a credential is tried as a session
//! credential first and as an API key second; it yields exactly one identity
//! or a failure that says nothing of which check failed.
//!
//! The two store lookups are made by the server between the steps: the first
//! step takes what the session store answered and says whether the API-key
//! store must be asked; the second takes that store's answer.
use vstd::prelude::*;
use vstd::string::*;

verus! {

/// An authenticated identity: the user, with the session record or the
/// API-key record through which it was established.
#[derive(Debug, PartialEq)]
pub struct AuthUser<U, S, K> {
    pub user: U,
    pub session: Option<S>,
    pub api_key: Option<K>,
}

impl<U, S, K> AuthUser<U, S, K> {
    /// Exactly one of the two credential records is present.
    pub open spec fn has_one_credential(&self) -> bool {
        self.session is Some != self.api_key is Some
    }
}

/// A credential that neither check accepted. It carries one fixed message.
#[derive(Debug, PartialEq)]
pub struct AuthError(pub String);

/// The message of every validation failure.
pub open spec fn unauthenticated_message() -> Seq<char> {
    seq!['I', 'n', 'v', 'a', 'l', 'i', 'd', ' ', 't', 'o', 'k', 'e', 'n']
}

/// What the validator does after the session store has answered.
#[derive(Debug, PartialEq)]
pub enum ValidationStep<U, S, K> {
    /// The credential is not a valid session: ask the API-key store.
    CheckApiKey,
    /// The credential is a valid session: this is the identity.
    Done(AuthUser<U, S, K>),
}

/// The first step, given the session store's answer (the user and the
/// session, or `None` where the store rejected the credential).
pub open spec fn session_step<U, S, K>(outcome: Option<(U, S)>) -> ValidationStep<U, S, K> {
    match outcome {
        Some((user, session)) => ValidationStep::Done(
            AuthUser { user, session: Some(session), api_key: None },
        ),
        None => ValidationStep::CheckApiKey,
    }
}

/// The second step, given the API-key store's answer (the key and its user,
/// or `None`): the identity, or the failure.
pub open spec fn api_key_step<U, S, K>(outcome: Option<(K, U)>) -> Option<AuthUser<U, S, K>> {
    match outcome {
        Some((key, user)) => Some(AuthUser { user, session: None, api_key: Some(key) }),
        None => None,
    }
}

/// The whole validation, given what each store would answer: the identity,
/// or `None` for the failure. The API-key store's answer counts only when the
/// session store rejected the credential.
pub open spec fn validated<U, S, K>(
    session_outcome: Option<(U, S)>,
    api_key_outcome: Option<(K, U)>,
) -> Option<AuthUser<U, S, K>> {
    match session_step::<U, S, K>(session_outcome) {
        ValidationStep::Done(identity) => Some(identity),
        ValidationStep::CheckApiKey => api_key_step::<U, S, K>(api_key_outcome),
    }
}

/// Decides after the session store has answered.
pub fn after_session_check<U, S, K>(outcome: Option<(U, S)>) -> (r: ValidationStep<U, S, K>)
    ensures
        r == session_step::<U, S, K>(outcome),
{
    match outcome {
        Some((user, session)) => ValidationStep::Done(
            AuthUser { user, session: Some(session), api_key: None },
        ),
        None => ValidationStep::CheckApiKey,
    }
}

/// Decides after the API-key store has answered; the failure carries no
/// detail about which check failed.
pub fn after_api_key_check<U, S, K>(outcome: Option<(K, U)>) -> (r: Result<AuthUser<U, S, K>, AuthError>)
    ensures
        match r {
            Ok(identity) => api_key_step::<U, S, K>(outcome) == Some(identity),
            Err(e) => api_key_step::<U, S, K>(outcome) is None && e.0@ == unauthenticated_message(),
        },
{
    match outcome {
        Some((key, user)) => Ok(AuthUser { user, session: None, api_key: Some(key) }),
        None => {
            let message = "Invalid token";
            proof {
                reveal_strlit("Invalid token");
            }
            assert(message@ =~= unauthenticated_message());
            Err(AuthError(String::from_str(message)))
        },
    }
}

/// Validation is total and all-or-nothing: whatever the stores answer, the
/// result is either one identity with exactly one of the session and API-key
/// records, or the failure; it succeeds exactly when one of the stores accepts
/// the credential, and a valid session takes precedence over a valid key.
pub proof fn lemma_validation_total<U, S, K>(
    session_outcome: Option<(U, S)>,
    api_key_outcome: Option<(K, U)>,
)
    ensures
        validated::<U, S, K>(session_outcome, api_key_outcome) is Some
            ==> validated::<U, S, K>(session_outcome, api_key_outcome)->0.has_one_credential(),
        validated::<U, S, K>(session_outcome, api_key_outcome) is Some <==> (session_outcome is Some
            || api_key_outcome is Some),
        match (session_outcome, api_key_outcome) {
            (Some((user, session)), _) => validated::<U, S, K>(session_outcome, api_key_outcome)
                == Some(AuthUser::<U, S, K> { user, session: Some(session), api_key: None }),
            (None, Some((key, user))) => validated::<U, S, K>(session_outcome, api_key_outcome)
                == Some(AuthUser::<U, S, K> { user, session: None, api_key: Some(key) }),
            (None, None) => validated::<U, S, K>(session_outcome, api_key_outcome) is None,
        },
{
}

} // verus!
