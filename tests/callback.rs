use driftwatch::callback::{handle_callback, CallbackReply, DeliverySlot};
use tokio::sync::oneshot;

fn slot() -> (DeliverySlot, oneshot::Receiver<String>) {
    let (tx, rx) = oneshot::channel::<String>();
    (DeliverySlot::new(tx), rx)
}

#[test]
fn well_formed_callback_delivers_the_credential() {
    let (mut s, mut rx) = slot();
    let reply = handle_callback("/callback", Some("token=abc123"), &mut s);
    assert_eq!(reply, CallbackReply::Accepted);
    assert_eq!(reply.status(), 200);
    assert_eq!(reply.content_type(), "text/html");
    assert!(reply.body().contains("Authentication Successful"));
    assert!(!s.is_open());
    assert_eq!(rx.try_recv().unwrap(), "abc123");
}

#[test]
fn credential_is_percent_decoded() {
    let (mut s, mut rx) = slot();
    let reply = handle_callback("/callback", Some("state=x&token=a%2Fb%20c"), &mut s);
    assert_eq!(reply, CallbackReply::Accepted);
    assert_eq!(rx.try_recv().unwrap(), "a/b c");
}

#[test]
fn undecodable_credential_is_rejected() {
    let (mut s, mut rx) = slot();
    let reply = handle_callback("/callback", Some("token=%FF"), &mut s);
    assert_eq!(reply, CallbackReply::Rejected);
    assert_eq!(reply.status(), 400);
    assert!(s.is_open());
    assert!(rx.try_recv().is_err());
    // The handshake keeps waiting for a valid delivery.
    handle_callback("/callback", Some("token=ok"), &mut s);
    assert_eq!(rx.try_recv().unwrap(), "ok");
}

#[test]
fn first_token_pair_wins_within_a_query() {
    let (mut s, mut rx) = slot();
    let reply = handle_callback("/callback", Some("tok=1&token&token=first&token=second"), &mut s);
    assert_eq!(reply, CallbackReply::Accepted);
    assert_eq!(rx.try_recv().unwrap(), "first");
}

#[test]
fn value_keeps_later_equals_signs() {
    let (mut s, mut rx) = slot();
    handle_callback("/callback", Some("token=a=b"), &mut s);
    assert_eq!(rx.try_recv().unwrap(), "a=b");
}

#[test]
fn malformed_requests_are_rejected_and_leave_the_slot() {
    let (mut s, mut rx) = slot();
    for (path, query) in [
        ("/", Some("token=abc")),
        ("/callback/", Some("token=abc")),
        ("/other", None),
        ("/callback", None),
        ("/callback", Some("")),
        ("/callback", Some("code=abc")),
        ("/callback", Some("token")),
        ("/callback", Some("Token=abc")),
    ] {
        let reply = handle_callback(path, query, &mut s);
        assert_eq!(reply, CallbackReply::Rejected, "{} {:?}", path, query);
        assert_eq!(reply.status(), 400);
        assert_eq!(reply.content_type(), "text/plain");
        assert!(s.is_open());
    }
    assert!(rx.try_recv().is_err());
    // The slot still takes a valid delivery afterwards.
    handle_callback("/callback", Some("token=late"), &mut s);
    assert_eq!(rx.try_recv().unwrap(), "late");
}

#[test]
fn only_the_first_of_many_deliveries_reaches_the_slot() {
    let (mut s, mut rx) = slot();
    for t in ["one", "two", "three"] {
        let query = format!("token={}", t);
        let reply = handle_callback("/callback", Some(&query), &mut s);
        assert_eq!(reply, CallbackReply::Accepted);
        assert_eq!(reply.status(), 200);
    }
    assert_eq!(rx.try_recv().unwrap(), "one");
}

#[test]
fn offer_reports_whether_it_was_taken() {
    let (mut s, mut rx) = slot();
    assert!(s.is_open());
    assert!(s.offer("x".to_string()));
    assert!(!s.offer("y".to_string()));
    assert!(!s.is_open());
    assert_eq!(rx.try_recv().unwrap(), "x");
}

#[test]
fn delivery_after_receiver_is_gone_still_closes_the_slot() {
    let (mut s, rx) = slot();
    drop(rx);
    assert_eq!(handle_callback("/callback", Some("token=t"), &mut s), CallbackReply::Accepted);
    assert!(!s.is_open());
}
