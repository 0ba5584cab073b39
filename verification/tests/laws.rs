use hop_engine::command::impls::{Decrement, Delete, Exists, Get, IncrementBy, Keys, Rename, SetValue};
use hop_engine::command::request::{RequestBuilder};
use hop_engine::command::response::{Context, Instruction, ResponseType};
use hop_engine::command::{CommandId, Dispatch, DispatchError, Request, Response};
use hop_engine::hop::Hop;
use hop_engine::state::value::Value;
use hop_engine::state::KeyType;

fn build_request(cmd: CommandId, key_type: Option<KeyType>, args: &[&[u8]]) -> Request {
    let mut builder = RequestBuilder::new_with_key_type(cmd, key_type);
    for arg in args {
        assert!(builder.bytes(arg.to_vec()).is_ok());
    }
    builder.into_request()
}

#[test]
fn test_set_then_get_answers_the_value() {
    let mut hop = Hop::new();
    let mut set_resp = Vec::new();
    let set = build_request(CommandId::SetValue, Some(KeyType::String), &[b"k", b"value"]);
    assert!(SetValue::dispatch(&mut hop, &set, &mut set_resp).is_ok());

    let mut get_resp = Vec::new();
    let get = build_request(CommandId::Length, None, &[b"k"]);
    assert!(Get::dispatch(&mut hop, &get, &mut get_resp).is_ok());
    assert_eq!(set_resp, get_resp);
}

#[test]
fn test_delete_removes_only_its_key() {
    let mut hop = Hop::new();
    hop.state_mut().insert(b"a".to_vec(), Value::Integer(1));
    hop.state_mut().insert(b"b".to_vec(), Value::Integer(2));
    let mut resp = Vec::new();
    let req = build_request(CommandId::Delete, None, &[b"a"]);
    assert!(Delete::dispatch(&mut hop, &req, &mut resp).is_ok());
    assert!(!hop.state().contains_key(b"a"));
    assert!(matches!(hop.state().key_ref(b"b"), Some(Value::Integer(2))));

    resp.clear();
    let req = build_request(CommandId::Exists, None, &[b"a"]);
    assert!(Exists::dispatch(&mut hop, &req, &mut resp).is_ok());
    assert_eq!(resp, Response::from(false).as_bytes());
}

#[test]
fn test_rename_moves_the_value() {
    let mut hop = Hop::new();
    hop.state_mut().insert(b"from".to_vec(), Value::Integer(7));
    hop.state_mut().insert(b"other".to_vec(), Value::Boolean(true));
    let mut resp = Vec::new();
    let req = build_request(CommandId::Rename, None, &[b"from", b"to"]);
    assert!(Rename::dispatch(&mut hop, &req, &mut resp).is_ok());
    assert!(!hop.state().contains_key(b"from"));
    assert!(matches!(hop.state().key_ref(b"to"), Some(Value::Integer(7))));
    assert!(matches!(hop.state().key_ref(b"other"), Some(Value::Boolean(true))));
}

#[test]
fn test_increment_undone_by_decrement() {
    let mut hop = Hop::new();
    hop.state_mut().insert(b"n".to_vec(), Value::Integer(i64::MIN + 2));
    let mut resp = Vec::new();
    IncrementBy::increment_int_by(&mut hop, b"n", -5, &mut resp).unwrap();
    IncrementBy::increment_int_by(&mut hop, b"n", 5, &mut resp).unwrap();
    assert!(matches!(hop.state().key_ref(b"n"), Some(Value::Integer(v)) if v == i64::MIN + 2));

    let req = build_request(CommandId::Decrement, None, &[b"n"]);
    resp.clear();
    assert!(Decrement::dispatch(&mut hop, &req, &mut resp).is_ok());
    assert_eq!(resp, Response::from(i64::MIN + 1).as_bytes());
}

#[test]
fn test_failures_keep_the_store() {
    let mut hop = Hop::new();
    hop.state_mut().insert(b"k".to_vec(), Value::Integer(1));
    let mut resp = Vec::new();

    let req = build_request(CommandId::Length, Some(KeyType::ByteMap), &[b"k"]);
    assert_eq!(Keys::dispatch(&mut hop, &req, &mut resp).unwrap_err(), DispatchError::KeyTypeDifferent);
    let req = build_request(CommandId::Rename, None, &[b"k", b"k"]);
    assert_eq!(Rename::dispatch(&mut hop, &req, &mut resp).unwrap_err(), DispatchError::PreconditionFailed);
    assert!(resp.is_empty());
    assert!(matches!(hop.state().key_ref(b"k"), Some(Value::Integer(1))));

    let req = build_request(CommandId::SetValue, Some(KeyType::Integer), &[b"free", b"x"]);
    assert_eq!(SetValue::dispatch(&mut hop, &req, &mut resp).unwrap_err(), DispatchError::ArgumentRetrieval);
    assert!(!hop.state().contains_key(b"free"));
}

#[test]
fn test_decoding_a_payload_gives_the_response() {
    let payloads = [
        Response::from(false).into_bytes(),
        Response::from(b"".to_vec()).into_bytes(),
        Response::Value(Value::Float(1.5f64.to_bits())).into_bytes(),
        Response::from(i64::MIN).into_bytes(),
        Response::from(vec![b"".to_vec()]).into_bytes(),
        Response::from(String::new()).into_bytes(),
    ];
    for payload in payloads.iter() {
        let mut ctx = Context::new();
        assert!(!ctx.feed_panics(payload));
        match ctx.feed(payload) {
            Ok(Instruction::Concluded(resp)) => assert_eq!(&resp.into_bytes(), payload),
            _ => panic!("the payload did not decode"),
        }
    }
}

#[test]
fn test_feed_panics_on_unknown_error_code() {
    let ctx = Context::new();
    assert!(ctx.feed_panics(&[ResponseType::DispatchError.as_u8(), 200]));
    assert!(ctx.feed_panics(&[ResponseType::DispatchError.as_u8(), 6]));
    assert!(!ctx.feed_panics(&[ResponseType::DispatchError.as_u8(), 5]));
    assert!(ctx.feed_panics(&[ResponseType::ParseError.as_u8(), 2]));
    assert!(!ctx.feed_panics(&[ResponseType::ParseError.as_u8(), 1]));
    assert!(!ctx.feed_panics(&[ResponseType::List.as_u8(), 0, 1, 0, 0]));
}

#[test]
fn test_built_requests_decode() {
    let mut builder = RequestBuilder::new(CommandId::SetValue);
    assert!(builder.bytes(b"key".to_vec()).is_ok());
    assert!(builder.value(Value::Integer(-2)).is_ok());
    let bytes = builder.into_request().into_bytes();
    let mut ctx = hop_engine::command::request::Context::new();
    let req = ctx.feed(&bytes).unwrap().unwrap();
    assert_eq!(req.command_id(), CommandId::SetValue);
    assert_eq!(req.typed_arg::<i64>(1), Some(-2));
    assert_eq!(req.as_bytes(), bytes.as_slice());
}
