use driftwatch::handshake::{
    callback_url, login_url, Handshake, HandshakeError, HandshakeEvent, HandshakePhase,
    LOGIN_DEADLINE_SECS,
};

#[test]
fn callback_url_names_the_loopback_port() {
    assert_eq!(callback_url(0), "http://127.0.0.1:0/callback");
    assert_eq!(callback_url(8), "http://127.0.0.1:8/callback");
    assert_eq!(callback_url(54321), "http://127.0.0.1:54321/callback");
    assert_eq!(callback_url(65535), "http://127.0.0.1:65535/callback");
}

#[test]
fn login_url_embeds_the_encoded_callback() {
    assert_eq!(
        login_url("https://driftwatch.dev", "http://127.0.0.1:4242/callback"),
        "https://driftwatch.dev/cli-auth?callback=http%3A%2F%2F127.0.0.1%3A4242%2Fcallback"
    );
}

#[test]
fn deadline_is_five_minutes() {
    assert_eq!(LOGIN_DEADLINE_SECS, 300);
}

#[test]
fn delivered_before_deadline_returns_that_credential() {
    let mut h = Handshake::new();
    assert!(matches!(h.phase, HandshakePhase::Idle));
    let url = h.listener_bound("http://localhost:4000", Some(4242)).unwrap();
    assert_eq!(
        url,
        "http://localhost:4000/cli-auth?callback=http%3A%2F%2F127.0.0.1%3A4242%2Fcallback"
    );
    assert!(matches!(h.phase, HandshakePhase::AwaitingBrowser));
    h.on_event(HandshakeEvent::Delivered("cred-1".to_string()));
    h.on_event(HandshakeEvent::DeadlineElapsed);
    h.on_event(HandshakeEvent::Delivered("cred-2".to_string()));
    assert_eq!(h.close(), Ok("cred-1".to_string()));
    assert!(matches!(h.phase, HandshakePhase::Closed));
}

#[test]
fn deadline_first_times_out_whatever_comes_later() {
    let mut h = Handshake::new();
    h.listener_bound("http://localhost:4000", Some(1)).unwrap();
    h.on_event(HandshakeEvent::DeadlineElapsed);
    h.on_event(HandshakeEvent::Delivered("late".to_string()));
    assert_eq!(h.close(), Err(HandshakeError::Timeout));
}

#[test]
fn bind_failure_fails_the_attempt() {
    let mut h = Handshake::new();
    assert_eq!(h.listener_bound("http://localhost:4000", None), None);
    h.on_event(HandshakeEvent::Delivered("ignored".to_string()));
    assert_eq!(h.close(), Err(HandshakeError::BindFailure));
}

#[test]
fn closed_delivery_channel_fails_the_attempt() {
    let mut h = Handshake::new();
    h.listener_bound("http://localhost:4000", Some(2)).unwrap();
    h.on_event(HandshakeEvent::DeliveryClosed);
    assert_eq!(h.close(), Err(HandshakeError::DeliveryClosed));
}
