use driftwatch::validator::{after_api_key_check, after_session_check, AuthError, AuthUser, ValidationStep};

/// Runs the two steps against stores given as lists of valid credentials.
fn validate(
    bearer: &str,
    sessions: &[(&str, &'static str)],
    api_keys: &[(&str, &'static str)],
) -> Result<AuthUser<&'static str, String, String>, AuthError> {
    let session = sessions
        .iter()
        .find(|(c, _)| *c == bearer)
        .map(|(c, u)| (*u, format!("session:{}", c)));
    match after_session_check(session) {
        ValidationStep::Done(identity) => Ok(identity),
        ValidationStep::CheckApiKey => {
            let key = api_keys
                .iter()
                .find(|(c, _)| *c == bearer)
                .map(|(c, u)| (format!("key:{}", c), *u));
            after_api_key_check(key)
        }
    }
}

#[test]
fn invalid_everywhere_is_unauthenticated() {
    let r = validate("expired-session", &[("live-session", "alice")], &[("ak_9", "bob")]);
    assert_eq!(r, Err(AuthError("Invalid token".to_string())));
}

#[test]
fn api_key_resolves_to_its_user() {
    let r = validate("ak_123", &[("live-session", "alice")], &[("ak_123", "U")]).unwrap();
    assert_eq!(r.user, "U");
    assert_eq!(r.session, None);
    assert_eq!(r.api_key, Some("key:ak_123".to_string()));
}

#[test]
fn session_takes_precedence_over_key() {
    let r = validate("both", &[("both", "alice")], &[("both", "bob")]).unwrap();
    assert_eq!(
        r,
        AuthUser { user: "alice", session: Some("session:both".to_string()), api_key: None }
    );
}

#[test]
fn steps_in_isolation() {
    let s: ValidationStep<u32, u8, u16> = after_session_check(None);
    assert_eq!(s, ValidationStep::CheckApiKey);
    let s: ValidationStep<u32, u8, u16> = after_session_check(Some((7, 1)));
    assert_eq!(s, ValidationStep::Done(AuthUser { user: 7, session: Some(1), api_key: None }));
    let e: Result<AuthUser<u32, u8, u16>, AuthError> = after_api_key_check(None);
    assert_eq!(e.unwrap_err().0, "Invalid token");
}
