use hop_engine::hop::{Builder, Hop};
use hop_engine::metrics::Metric;
use hop_engine::session::SessionManager;
use hop_engine::state::value::Value;
use hop_engine::state::{KeyType, State};

#[test]
fn test_key_type_nonexistent_key() {
    let state = State::new();
    assert!(state.key_type(b"foo").is_none());
}

#[test]
fn test_key_type_with_key() {
    let mut state = State::new();
    state.insert(b"foo".to_vec(), Value::Bytes([1, 2].to_vec()));
    assert_eq!(Some(KeyType::Bytes), state.key_type(b"foo"));

    state.insert(b"bar".to_vec(), Value::Integer(123));
    assert_eq!(Some(KeyType::Integer), state.key_type(b"bar"));
}

#[test]
fn test_state_insert_remove() {
    let mut state = State::new();
    assert!(state.insert(b"foo".to_vec(), Value::bytes()).is_none());
    assert!(state.insert(b"foo".to_vec(), Value::boolean()).is_some());
    assert!(state.contains_key(b"foo"));
    let held = state.key_or_insert_with(b"foo", Value::string());
    assert!(matches!(held, Value::Boolean(false)));
    assert_eq!(state.key_type(b"foo"), Some(KeyType::Boolean));
    let inserted = state.key_or_insert_with(b"bar", Value::Integer(7));
    assert!(matches!(inserted, Value::Integer(7)));
    assert_eq!(state.key_type(b"bar"), Some(KeyType::Integer));
    assert!(state.remove(b"foo").is_some());
    assert!(!state.contains_key(b"foo"));
    assert!(state.key_ref(b"foo").is_none());
}

#[test]
fn test_key_type_codes() {
    for code in 0..8u8 {
        assert_eq!(KeyType::try_from(code).unwrap().as_u8(), code);
    }
    assert!(KeyType::try_from(8).is_err());
}

#[test]
fn test_builder() {
    let mut builder = Builder::new();
    builder.pubsub_enabled(false).sessions_active_max(150);
    let hop = builder.build();

    assert!(!hop.config().pubsub_enabled());
    assert_eq!(150, hop.config().sessions_active_max());

    let hop = Hop::new();
    assert!(hop.config().pubsub_enabled());
    assert_eq!(usize::MAX, hop.config().sessions_active_max());
}

#[test]
fn test_sessions() {
    let mut sessions = SessionManager::new();
    assert!(sessions.can_add());
    let first = sessions.add([1; 32]);
    let second = sessions.add([2; 32]);
    assert_eq!(first.id, 0);
    assert_eq!(second.id, 1);
    assert_eq!(second.client_token, [2; 32]);
    assert!(sessions.remove(0));
    assert!(!sessions.remove(0));
}

#[test]
fn test_metrics() {
    let mut hop = Hop::new();
    assert_eq!(hop.metrics().counter(Metric::SessionsEnded), None);
    hop.metrics_mut().increment(Metric::SessionsEnded);
    hop.metrics_mut().increment(Metric::SessionsEnded);
    assert_eq!(hop.metrics().counter(Metric::SessionsEnded), Some(2));
    assert_eq!(Metric::SessionsEnded.name(), "sessions_ended");
}

#[test]
fn test_value_is_string() {
    assert!(Value::String("a".to_owned()).is_string());
    assert!(Value::string().is_string());
    assert!(!Value::Boolean(true).is_string());
    assert!(!Value::Bytes(b"a".to_vec()).is_string());
}
