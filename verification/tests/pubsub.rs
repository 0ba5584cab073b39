use hop_engine::hop::Hop;
use hop_engine::pubsub::Subscriptions;
use hop_engine::session::SessionId;

#[test]
fn test_subscribe_once() {
    let mut subs = Subscriptions::new();
    let a = SessionId::new(1);
    let b = SessionId::new(2);
    assert!(subs.subscribe(b"foo".to_vec(), a));
    assert!(!subs.subscribe(b"foo".to_vec(), a));
    assert!(subs.subscribe(b"foo".to_vec(), b));
    assert!(subs.is_subscribed(b"foo", a));
    assert!(subs.is_subscribed(b"foo", b));
    assert!(!subs.is_subscribed(b"bar", a));
}

#[test]
fn test_unsubscribe() {
    let mut subs = Subscriptions::new();
    let a = SessionId::new(1);
    assert!(!subs.unsubscribe(b"foo", a));
    assert!(subs.subscribe(b"foo".to_vec(), a));
    assert!(subs.unsubscribe(b"foo", a));
    assert!(!subs.is_subscribed(b"foo", a));
    assert!(!subs.unsubscribe(b"foo", a));
    assert!(subs.subscribe(b"foo".to_vec(), a));
}

#[test]
fn test_remove_session() {
    let mut subs = Subscriptions::new();
    let a = SessionId::new(1);
    let b = SessionId::new(2);
    assert!(!subs.remove_session(a));
    subs.subscribe(b"foo".to_vec(), a);
    subs.subscribe(b"bar".to_vec(), a);
    subs.subscribe(b"foo".to_vec(), b);
    assert!(subs.remove_session(a));
    assert!(!subs.is_subscribed(b"foo", a));
    assert!(!subs.is_subscribed(b"bar", a));
    assert!(subs.is_subscribed(b"foo", b));
    assert!(!subs.remove_session(a));
    subs.unsubscribe(b"foo", b);
    assert!(!subs.remove_session(b));
}

#[test]
fn test_engine_keeps_subscriptions() {

    let mut hop = Hop::new();
    let a = SessionId::new(3);
    assert!(!hop.pubsub().is_subscribed(b"foo", a));
    assert!(hop.pubsub_mut().subscribe(b"foo".to_vec(), a));
    assert!(hop.pubsub().is_subscribed(b"foo", a));
}
