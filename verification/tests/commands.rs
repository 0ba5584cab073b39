use dashmap::{DashMap, DashSet};
use hop_engine::command::impls::{
    Append, Decrement, DecrementBy, Delete, Echo, Exists, Get, Increment, IncrementBy, Is, Keys,
    Length, Rename, SetValue, Stats, Type,
};
use hop_engine::command::request::RequestBuilder;
use hop_engine::command::response::write_list;
use hop_engine::command::{CommandId, Dispatch, DispatchError, Request, Response};
use hop_engine::hop::Hop;
use hop_engine::metrics::Metric;
use hop_engine::state::value::Value;
use hop_engine::state::KeyType;

fn request(cmd: CommandId, key_type: Option<KeyType>, args: &[&[u8]]) -> Request {
    let mut builder = RequestBuilder::new_with_key_type(cmd, key_type);
    for arg in args {
        assert!(builder.bytes(arg.to_vec()).is_ok());
    }
    builder.into_request()
}

fn integer(hop: &Hop, key: &[u8]) -> Option<i64> {
    match hop.state().key_ref(key) {
        Some(Value::Integer(i)) => Some(i),
        _ => None,
    }
}

// decrement

#[test]
fn test_decrement() {
    let req = request(CommandId::Decrement, None, &[b"foo"]);
    let mut hop = Hop::new();
    let mut resp = Vec::new();

    assert!(Decrement::dispatch(&mut hop, &req, &mut resp).is_ok());
    assert_eq!(Response::from(-1i64).as_bytes(), resp);
    assert_eq!(Some(-1), integer(&hop, b"foo"));
}

#[test]
fn decrement_test_no_key() {
    let req = RequestBuilder::new(CommandId::Decrement).into_request();
    let mut hop = Hop::new();
    let mut resp = Vec::new();

    assert_eq!(
        DispatchError::KeyUnspecified,
        Decrement::dispatch(&mut hop, &req, &mut resp).unwrap_err()
    );
}

// decrement by

#[test]
fn decrement_by_test_decrement_by() {
    let mut builder = RequestBuilder::new(CommandId::DecrementBy);
    assert!(builder.bytes(b"foo".to_vec()).is_ok());
    assert!(builder.value(Value::Integer(3)).is_ok());
    let req = builder.into_request();
    let mut hop = Hop::new();
    let mut resp = Vec::new();

    assert!(DecrementBy::dispatch(&mut hop, &req, &mut resp).is_ok());
    assert_eq!(Response::from(-3i64).as_bytes(), resp);
    assert_eq!(Some(-3), integer(&hop, b"foo"));
}

#[test]
fn decrement_by_test_no_key() {
    let req = RequestBuilder::new(CommandId::Decrement).into_request();
    let mut hop = Hop::new();
    let mut resp = Vec::new();

    assert_eq!(
        DispatchError::KeyUnspecified,
        DecrementBy::dispatch(&mut hop, &req, &mut resp).unwrap_err()
    );
}

#[test]
fn decrement_by_test_no_amount() {
    let req = request(CommandId::DecrementBy, None, &[b"foo"]);
    let mut hop = Hop::new();
    let mut resp = Vec::new();

    assert_eq!(
        DispatchError::ArgumentRetrieval,
        DecrementBy::dispatch(&mut hop, &req, &mut resp).unwrap_err()
    );
    assert!(resp.is_empty());
}

// delete

fn delete_builder(key_type: Option<KeyType>) -> RequestBuilder {
    let mut builder = RequestBuilder::new_with_key_type(CommandId::DecrementBy, key_type);
    assert!(builder.bytes(b"foo".to_vec()).is_ok());

    builder
}

#[test]
fn test_valid() {
    let req = delete_builder(None).into_request();
    let mut resp = Vec::new();

    let mut hop = Hop::new();
    hop.state_mut()
        .insert(b"foo".to_vec(), Value::Bytes([b'f', b'o', b'o'].to_vec()));

    assert!(Delete::dispatch(&mut hop, &req, &mut resp).is_ok());
    assert_eq!(resp, Response::from(b"foo".to_vec()).as_bytes());
    assert!(!hop.state().contains_key(b"foo"));
}

#[test]
fn test_nonexistent() {
    let req = delete_builder(None).into_request();
    let mut resp = Vec::new();

    let mut hop = Hop::new();

    assert!(matches!(
        Delete::dispatch(&mut hop, &req, &mut resp),
        Err(DispatchError::PreconditionFailed)
    ));
}

#[test]
fn delete_test_key_type_specified() {
    let req = delete_builder(Some(KeyType::Bytes)).into_request();
    let mut resp = Vec::new();

    let mut hop = Hop::new();

    assert!(matches!(
        Delete::dispatch(&mut hop, &req, &mut resp),
        Err(DispatchError::KeyTypeUnexpected)
    ));
}

#[test]
fn delete_test_no_arguments() {
    let req = RequestBuilder::new(CommandId::Delete).into_request();
    let mut resp = Vec::new();

    let mut hop = Hop::new();
    assert!(matches!(
        Delete::dispatch(&mut hop, &req, &mut resp),
        Err(DispatchError::KeyUnspecified)
    ));
}

// echo

#[test]
fn test_input() {
    let mut hop = Hop::new();

    let mut builder = RequestBuilder::new(CommandId::Echo);
    assert!(builder.bytes(b"hopdb".to_vec()).is_ok());
    let req = builder.clone().into_request();

    let mut expected = Vec::new();
    let mut resp = Vec::new();

    assert!(Echo::dispatch(&mut hop, &req, &mut resp).is_ok());
    write_list(&mut expected, &[b"hopdb".to_vec()]);
    assert_eq!(resp, expected);

    expected.clear();
    resp.clear();

    assert!(builder.bytes(b"hop".to_vec()).is_ok());
    let req = builder.into_request();

    assert!(Echo::dispatch(&mut hop, &req, &mut resp).is_ok());
    write_list(&mut expected, &[b"hopdb".to_vec(), b"hop".to_vec()]);
    assert_eq!(resp, expected);
}

#[test]
fn test_empty() {
    let req = RequestBuilder::new(CommandId::Echo).into_request();

    let mut hop = Hop::new();
    let empty_slice: &[Vec<u8>] = &[];

    let mut expected = Vec::new();
    let mut resp = Vec::new();

    assert!(Echo::dispatch(&mut hop, &req, &mut resp).is_ok());
    write_list(&mut expected, empty_slice);
    assert_eq!(resp, expected);
}

// exists

#[test]
fn test_one_key() {
    let req = request(CommandId::Exists, None, &[b"foo"]);
    let mut resp = Vec::new();

    let mut hop = Hop::new();
    hop.state_mut()
        .insert(b"foo".to_vec(), Value::Bytes([1, 2, 3].to_vec()));

    assert!(Exists::dispatch(&mut hop, &req, &mut resp).is_ok());
    assert_eq!(resp, Response::from(true).as_bytes());
}

#[test]
fn test_two_keys_both_exist() {
    let req = request(CommandId::Exists, None, &[b"foo", b"bar"]);
    let mut resp = Vec::new();

    let mut hop = Hop::new();
    hop.state_mut()
        .insert(b"foo".to_vec(), Value::Bytes([1, 2, 3].to_vec()));
    hop.state_mut()
        .insert(b"bar".to_vec(), Value::Bytes([1, 2, 3].to_vec()));

    assert!(Exists::dispatch(&mut hop, &req, &mut resp).is_ok());
    assert_eq!(resp, Response::from(true).as_bytes());
}

#[test]
fn test_two_keys_one_exists() {
    let req = request(CommandId::Exists, None, &[b"foo", b"bar"]);
    let mut resp = Vec::new();

    let mut hop = Hop::new();
    hop.state_mut()
        .insert(b"foo".to_vec(), Value::Bytes([1, 2, 3].to_vec()));

    assert!(Exists::dispatch(&mut hop, &req, &mut resp).is_ok());
    assert_eq!(resp, Response::from(false).as_bytes());
}

#[test]
fn test_one_key_doesnt_exist() {
    let req = request(CommandId::Exists, None, &[b"foo"]);
    let mut resp = Vec::new();

    let mut hop = Hop::new();

    assert!(Exists::dispatch(&mut hop, &req, &mut resp).is_ok());
    assert_eq!(resp, Response::from(false).as_bytes());
}

#[test]
fn exists_test_no_arguments() {
    let req = request(CommandId::Exists, None, &[]);
    let mut resp = Vec::new();

    let mut hop = Hop::new();
    assert!(matches!(
        Exists::dispatch(&mut hop, &req, &mut resp),
        Err(DispatchError::ArgumentRetrieval)
    ));
}

#[test]
fn exists_test_key_type_specified() {
    let req = request(CommandId::Exists, Some(KeyType::List), &[b"foo", b"bar"]);
    let mut resp = Vec::new();

    let mut hop = Hop::new();
    assert!(matches!(
        Exists::dispatch(&mut hop, &req, &mut resp),
        Err(DispatchError::KeyTypeUnexpected)
    ));
}

// get: the engine has no command id for it, so its requests are built with
// another command that has a key.

#[test]
fn get_test_bool() {
    let mut hop = Hop::new();
    hop.state_mut().insert(b"foo".to_vec(), Value::Boolean(false));
    let req = request(CommandId::Length, None, &[b"foo"]);
    let mut resp = Vec::new();

    assert!(Get::dispatch(&mut hop, &req, &mut resp).is_ok());
    assert_eq!(resp, Response::from(false).as_bytes());
}

#[test]
fn test_bool_specified_key_type() {
    let mut hop = Hop::new();
    hop.state_mut().insert(b"foo".to_vec(), Value::Boolean(true));

    let req = request(CommandId::Length, Some(KeyType::Boolean), &[b"foo"]);
    let mut resp = Vec::new();

    assert!(Get::dispatch(&mut hop, &req, &mut resp).is_ok());
    assert_eq!(resp, Response::from(true).as_bytes());
}

#[test]
fn get_test_int() {
    let mut hop = Hop::new();
    hop.state_mut().insert(b"foo".to_vec(), Value::Integer(123));
    let req = request(CommandId::Length, None, &[b"foo"]);
    let mut resp = Vec::new();

    assert!(Get::dispatch(&mut hop, &req, &mut resp).is_ok());
    assert_eq!(resp, Response::from(123).as_bytes());
}

#[test]
fn get_test_no_key() {
    let mut hop = Hop::new();
    let req = request(CommandId::Length, None, &[]);
    let mut resp = Vec::new();

    assert_eq!(
        DispatchError::KeyUnspecified,
        Get::dispatch(&mut hop, &req, &mut resp).unwrap_err()
    );
}

#[test]
fn test_key_nonexistent() {
    let mut hop = Hop::new();
    let req = request(CommandId::Length, None, &[b"foo"]);
    let mut resp = Vec::new();

    assert_eq!(
        DispatchError::KeyNonexistent,
        Get::dispatch(&mut hop, &req, &mut resp).unwrap_err()
    );
}

#[test]
fn get_test_key_type_different() {
    let mut hop = Hop::new();
    hop.state_mut().insert(b"foo".to_vec(), Value::Integer(123));
    let req = request(CommandId::Length, Some(KeyType::Boolean), &[b"foo"]);
    let mut resp = Vec::new();

    assert_eq!(
        DispatchError::KeyTypeDifferent,
        Get::dispatch(&mut hop, &req, &mut resp).unwrap_err()
    );
}

// increment

#[test]
fn test_increment() {
    let req = request(CommandId::Increment, None, &[b"foo"]);
    let mut hop = Hop::new();
    let mut resp = Vec::new();

    assert!(Increment::dispatch(&mut hop, &req, &mut resp).is_ok());
    assert_eq!(Response::from(1i64).as_bytes(), resp);
    assert_eq!(Some(1), integer(&hop, b"foo"));
}

#[test]
fn increment_test_no_key() {
    let req = request(CommandId::Increment, None, &[]);
    let mut hop = Hop::new();
    let mut resp = Vec::new();

    assert_eq!(
        DispatchError::KeyUnspecified,
        Increment::dispatch(&mut hop, &req, &mut resp).unwrap_err()
    );
}

// increment by

#[test]
fn increment_by_test_decrement_by() {
    let mut builder = RequestBuilder::new(CommandId::IncrementBy);
    assert!(builder.bytes(b"foo".to_vec()).is_ok());
    assert!(builder.value(Value::Integer(3)).is_ok());
    let req = builder.into_request();
    let mut hop = Hop::new();
    let mut resp = Vec::new();

    assert!(IncrementBy::dispatch(&mut hop, &req, &mut resp).is_ok());
    assert_eq!(Response::from(3i64).as_bytes(), resp);
    assert_eq!(Some(3), integer(&hop, b"foo"));
}

#[test]
fn increment_by_test_no_key() {
    let req = RequestBuilder::new(CommandId::Decrement).into_request();
    let mut hop = Hop::new();
    let mut resp = Vec::new();

    assert_eq!(
        DispatchError::KeyUnspecified,
        IncrementBy::dispatch(&mut hop, &req, &mut resp).unwrap_err()
    );
}

#[test]
fn increment_by_test_no_amount() {
    let req = request(CommandId::IncrementBy, None, &[b"foo"]);

    let mut hop = Hop::new();
    let mut resp = Vec::new();

    assert_eq!(
        DispatchError::ArgumentRetrieval,
        IncrementBy::dispatch(&mut hop, &req, &mut resp).unwrap_err()
    );
    assert!(!hop.state().contains_key(b"foo"));
}

#[test]
fn test_increment_wraps_and_type_mismatch() {
    let mut hop = Hop::new();
    hop.state_mut().insert(b"max".to_vec(), Value::Integer(i64::MAX));
    let mut resp = Vec::new();
    IncrementBy::increment_int_by(&mut hop, b"max", 1, &mut resp).unwrap();
    assert_eq!(resp, Response::from(i64::MIN).as_bytes());
    assert_eq!(Some(i64::MIN), integer(&hop, b"max"));

    hop.state_mut().insert(b"text".to_vec(), Value::String("a".to_string()));
    resp.clear();
    assert_eq!(
        IncrementBy::increment_int_by(&mut hop, b"text", 1, &mut resp).unwrap_err(),
        DispatchError::KeyTypeDifferent
    );
    assert!(resp.is_empty());
}

// is

#[test]
fn test_one_arg() {
    let req = request(CommandId::Is, Some(KeyType::String), &[b"foo"]);

    let mut hop = Hop::new();
    hop.state_mut().key_or_insert_with(b"foo", Value::string());

    let mut resp = Vec::new();

    assert!(Is::dispatch(&mut hop, &req, &mut resp).is_ok());
    assert_eq!(resp, Response::from(true).as_bytes());
}

#[test]
fn test_two_args() {
    let req = request(CommandId::Is, Some(KeyType::String), &[b"foo", b"bar"]);

    let mut hop = Hop::new();
    hop.state_mut().key_or_insert_with(b"foo", Value::string());
    hop.state_mut().key_or_insert_with(b"bar", Value::string());

    let mut resp = Vec::new();

    assert!(Is::dispatch(&mut hop, &req, &mut resp).is_ok());
    assert_eq!(resp, Response::from(true).as_bytes());
}

#[test]
fn test_two_mismatched() {
    let req = request(CommandId::Is, Some(KeyType::String), &[b"foo", b"bar"]);

    let mut hop = Hop::new();
    hop.state_mut().key_or_insert_with(b"foo", Value::string());
    hop.state_mut().key_or_insert_with(b"bar", Value::integer());

    let mut resp = Vec::new();

    assert!(Is::dispatch(&mut hop, &req, &mut resp).is_ok());
    assert_eq!(resp, Response::from(false).as_bytes());
}

#[test]
fn is_test_no_arguments() {
    let req = RequestBuilder::new_with_key_type(CommandId::Is, Some(KeyType::Bytes)).into_request();

    let mut hop = Hop::new();

    let mut resp = Vec::new();

    assert!(matches!(
        Is::dispatch(&mut hop, &req, &mut resp),
        Err(DispatchError::ArgumentRetrieval)
    ));
}

#[test]
fn test_key_type_unspecified() {
    let req = request(CommandId::Is, None, &[b"foo"]);

    let mut hop = Hop::new();

    let mut resp = Vec::new();

    assert!(matches!(
        Is::dispatch(&mut hop, &req, &mut resp),
        Err(DispatchError::KeyTypeRequired)
    ));
}

// keys: the engine has no command id for it, so its requests are built with
// another command that has a key.

#[test]
fn test_map_no_key_type_two_pairs() {
    let mut hop = Hop::new();
    let req = request(CommandId::Length, None, &[b"foo"]);

    let mut resp = Vec::new();

    let map = DashMap::new();
    map.insert(b"key1".to_vec(), b"value2".to_vec());
    map.insert(b"key2".to_vec(), b"value2".to_vec());
    hop.state_mut().insert(b"foo".to_vec(), Value::ByteMap(map));

    assert!(Keys::dispatch(&mut hop, &req, &mut resp).is_ok());
    let expected1 = Response::from([b"key1".to_vec(), b"key2".to_vec()].to_vec()).as_bytes();
    let expected2 = Response::from([b"key2".to_vec(), b"key1".to_vec()].to_vec()).as_bytes();
    assert!(resp == expected1 || resp == expected2);
}

#[test]
fn test_map_key_type() {
    let mut hop = Hop::new();
    let req = request(CommandId::Length, Some(KeyType::ByteMap), &[b"foo"]);

    let mut resp = Vec::new();

    let map = DashMap::new();
    map.insert(b"key".to_vec(), b"value".to_vec());
    hop.state_mut().insert(b"foo".to_vec(), Value::ByteMap(map));

    assert!(Keys::dispatch(&mut hop, &req, &mut resp).is_ok());
    assert_eq!(resp, Response::from([b"key".to_vec()].to_vec()).as_bytes());
}

#[test]
fn test_key_type_invalid() {
    let mut hop = Hop::new();
    let req = request(CommandId::Length, Some(KeyType::Integer), &[b"foo"]);

    let mut resp = Vec::new();

    assert_eq!(
        DispatchError::KeyTypeInvalid,
        Keys::dispatch(&mut hop, &req, &mut resp).unwrap_err()
    );
}

#[test]
fn keys_test_key_type_different() {
    let mut hop = Hop::new();
    let req = request(CommandId::Length, Some(KeyType::ByteMap), &[b"foo"]);

    let mut resp = Vec::new();

    hop.state_mut().insert(b"foo".to_vec(), Value::Integer(1));
    assert_eq!(
        DispatchError::KeyTypeDifferent,
        Keys::dispatch(&mut hop, &req, &mut resp).unwrap_err()
    );
}

#[test]
fn test_keys_of_absent_key_is_empty_map() {
    let mut hop = Hop::new();
    let req = request(CommandId::Length, None, &[b"foo"]);
    let mut resp = Vec::new();

    assert!(Keys::dispatch(&mut hop, &req, &mut resp).is_ok());
    assert_eq!(resp, Response::from(Vec::<Vec<u8>>::new()).as_bytes());
    assert_eq!(hop.state().key_type(b"foo"), Some(KeyType::ByteMap));
}

// length

#[test]
fn test_no_args() {
    let req = RequestBuilder::new(CommandId::Length).into_request();

    let mut resp = Vec::new();
    let mut hop = Hop::new();

    assert_eq!(
        Length::dispatch(&mut hop, &req, &mut resp).unwrap_err(),
        DispatchError::KeyUnspecified
    );
}

#[test]
fn test_invalid_key_type() {
    let types = [KeyType::Boolean, KeyType::Float, KeyType::Integer];

    let mut resp = Vec::new();
    let mut hop = Hop::new();

    for kind in types.iter() {
        let req = request(CommandId::Length, Some(*kind), &[b"foo"]);

        assert_eq!(
            Length::dispatch(&mut hop, &req, &mut resp).unwrap_err(),
            DispatchError::KeyTypeInvalid
        );

        resp.clear();
    }
}

#[test]
fn test_default_when_key_nonexistent() {
    let req = request(CommandId::Length, None, &[b"foo"]);

    let mut hop = Hop::new();
    let mut resp = Vec::new();

    assert_eq!(
        DispatchError::KeyNonexistent,
        Length::dispatch(&mut hop, &req, &mut resp).unwrap_err(),
    );
}

#[test]
fn test_default_when_bytes_exists() {
    let req = request(CommandId::Length, None, &[b"foo"]);

    let mut resp = Vec::new();
    let mut hop = Hop::new();
    hop.state_mut()
        .insert(b"foo".to_vec(), Value::Bytes([1, 2, 3].to_vec()));

    assert!(Length::dispatch(&mut hop, &req, &mut resp).is_ok());
    assert_eq!(resp, Response::from(3).as_bytes());
}

#[test]
fn test_default_when_list_exists() {
    let req = request(CommandId::Length, None, &[b"hop"]);

    let mut resp = Vec::new();
    let mut hop = Hop::new();
    let mut list = Vec::new();
    list.push(b"db".to_vec());
    hop.state_mut().insert(b"hop".to_vec(), Value::List(list));

    assert!(Length::dispatch(&mut hop, &req, &mut resp).is_ok());
    assert_eq!(resp, Response::from(1).as_bytes());
}

#[test]
fn test_default_when_map_exists() {
    let req = request(CommandId::Length, None, &[b"hop"]);

    let mut resp = Vec::new();
    let mut hop = Hop::new();
    let map = DashMap::new();
    map.insert(b"foo".to_vec(), b"bar".to_vec());
    hop.state_mut().insert(b"hop".to_vec(), Value::ByteMap(map));

    assert!(Length::dispatch(&mut hop, &req, &mut resp).is_ok());
    assert_eq!(resp, Response::from(1).as_bytes());
}

#[test]
fn test_default_when_set_exists() {
    let req = request(CommandId::Length, None, &[b"hop"]);

    let mut resp = Vec::new();
    let mut hop = Hop::new();
    let set = DashSet::new();
    set.insert(b"foo".to_vec());
    hop.state_mut().insert(b"hop".to_vec(), Value::ByteSet(set));

    assert!(Length::dispatch(&mut hop, &req, &mut resp).is_ok());
    assert_eq!(resp, Response::from(1).as_bytes());
}

#[test]
fn test_default_when_string_exists() {
    let req = request(CommandId::Length, None, &[b"foo"]);

    let mut hop = Hop::new();
    hop.state_mut()
        .insert(b"foo".to_vec(), Value::String("1234".to_owned()));

    let cowboy = "🤠";
    assert_eq!(cowboy.len(), 4);
    hop.state_mut()
        .insert(b"cowboy".to_vec(), Value::String(cowboy.to_owned()));

    let mut resp = Vec::new();

    // length of a simple string, 4 bytes and 4 chars
    assert!(Length::dispatch(&mut hop, &req, &mut resp).is_ok());
    assert_eq!(resp, Response::from(4).as_bytes());

    resp.clear();

    // length of a simple string, 4 bytes but 1 char
    let req = request(CommandId::Length, None, &[b"cowboy"]);

    assert!(Length::dispatch(&mut hop, &req, &mut resp).is_ok());
    assert_eq!(resp, Response::from(1).as_bytes());
}

#[test]
fn test_length_of_wrong_type() {
    let req = request(CommandId::Length, Some(KeyType::List), &[b"foo"]);
    let mut hop = Hop::new();
    hop.state_mut().insert(b"foo".to_vec(), Value::Bytes(b"ab".to_vec()));
    let mut resp = Vec::new();

    assert_eq!(
        Length::dispatch(&mut hop, &req, &mut resp).unwrap_err(),
        DispatchError::KeyTypeDifferent
    );
}

// rename

#[test]
fn test_rename_valid() {
    let req = request(CommandId::Rename, None, &[b"foo", b"bar"]);

    let mut resp = Vec::new();
    let mut hop = Hop::new();
    hop.state_mut()
        .insert(b"foo".to_vec(), Value::Bytes([1, 2, 3].to_vec()));

    assert!(Rename::dispatch(&mut hop, &req, &mut resp).is_ok());
    assert_eq!(resp, Response::from(b"bar".to_vec()).as_bytes());
    assert!(!hop.state().contains_key(b"foo"));
    assert!(matches!(hop.state().key_ref(b"bar"), Some(Value::Bytes(b)) if b == [1, 2, 3]));
}

#[test]
fn test_rename_src_nonexistent() {
    let req = request(CommandId::Rename, None, &[b"foo", b"bar"]);

    let mut hop = Hop::new();
    let mut resp = Vec::new();

    assert!(matches!(
        Rename::dispatch(&mut hop, &req, &mut resp),
        Err(DispatchError::KeyNonexistent)
    ));
}

#[test]
fn test_rename_destination_already_exists() {
    let req = request(CommandId::Rename, None, &[b"foo", b"bar"]);

    let mut resp = Vec::new();
    let mut hop = Hop::new();
    hop.state_mut().insert(b"foo".to_vec(), Value::bytes());
    hop.state_mut().insert(b"bar".to_vec(), Value::bytes());

    assert!(matches!(
        Rename::dispatch(&mut hop, &req, &mut resp),
        Err(DispatchError::PreconditionFailed)
    ));
}

#[test]
fn test_too_few_arguments() {
    let req = request(CommandId::Rename, None, &[b"foo"]);

    let mut resp = Vec::new();
    let mut hop = Hop::new();

    assert!(matches!(
        Rename::dispatch(&mut hop, &req, &mut resp),
        Err(DispatchError::ArgumentRetrieval)
    ));

    let req = RequestBuilder::new(CommandId::Rename).into_request();
    resp.clear();

    assert!(matches!(
        Rename::dispatch(&mut hop, &req, &mut resp),
        Err(DispatchError::KeyUnspecified)
    ));
}

// set

#[test]
fn test_types_no_arg() {
    let mut hop = Hop::new();
    let mut resp = Vec::new();

    let types = [
        KeyType::Boolean,
        KeyType::Bytes,
        KeyType::Float,
        KeyType::Integer,
        KeyType::List,
        KeyType::ByteMap,
        KeyType::ByteSet,
        KeyType::String,
    ];

    for key_type in &types {
        let req = request(CommandId::SetValue, Some(*key_type), &[b"foo"]);

        assert_eq!(
            SetValue::dispatch(&mut hop, &req, &mut resp).unwrap_err(),
            DispatchError::ArgumentRetrieval,
        );

        resp.clear();
    }
}

#[test]
fn set_test_bool() {
    let mut hop = Hop::new();
    let req = request(CommandId::SetValue, Some(KeyType::Boolean), &[b"foo", &[1]]);
    let mut resp = Vec::new();

    assert!(SetValue::dispatch(&mut hop, &req, &mut resp).is_ok());
    assert_eq!(resp, Response::from(true).as_bytes());
    assert!(matches!(hop.state().key_ref(b"foo"), Some(Value::Boolean(true))));
}

#[test]
fn set_test_bytes() {
    let mut hop = Hop::new();
    let req = request(CommandId::SetValue, Some(KeyType::Bytes), &[b"foo", b"bar baz"]);
    let mut resp = Vec::new();

    assert!(SetValue::dispatch(&mut hop, &req, &mut resp).is_ok());
    assert_eq!(resp, Response::from(b"bar baz".to_vec()).as_bytes());
    assert!(matches!(hop.state().key_ref(b"foo"), Some(Value::Bytes(b)) if b == b"bar baz".to_vec()));
}

#[test]
fn set_test_float() {
    let mut hop = Hop::new();
    let two = 2f64.to_be_bytes();
    let req = request(CommandId::SetValue, Some(KeyType::Float), &[b"foo", &two]);
    let mut resp = Vec::new();

    assert!(SetValue::dispatch(&mut hop, &req, &mut resp).is_ok());
    assert_eq!(resp, Response::Value(Value::Float(2f64.to_bits())).as_bytes());
    assert!(matches!(hop.state().key_ref(b"foo"), Some(Value::Float(bits)) if f64::from_bits(bits) == 2f64));
}

#[test]
fn set_test_int() {
    let mut hop = Hop::new();
    let two = 2i64.to_be_bytes();
    let req = request(CommandId::SetValue, Some(KeyType::Integer), &[b"foo", &two]);
    let mut resp = Vec::new();

    assert!(SetValue::dispatch(&mut hop, &req, &mut resp).is_ok());
    assert_eq!(resp, Response::from(2i64).as_bytes());
    assert_eq!(Some(2), integer(&hop, b"foo"));
}

#[test]
fn test_list_three_entries() {
    let mut hop = Hop::new();
    let req = request(
        CommandId::SetValue,
        Some(KeyType::List),
        &[b"foo", b"value1", b"value2", b"value2"],
    );
    let mut resp = Vec::new();

    assert!(SetValue::dispatch(&mut hop, &req, &mut resp).is_ok());
    assert!(matches!(hop.state().key_ref(b"foo"), Some(Value::List(l)) if l.len() == 3));
}

#[test]
fn test_map_two_entries() {
    let mut hop = Hop::new();
    let req = request(
        CommandId::SetValue,
        Some(KeyType::ByteMap),
        &[b"foo", b"key1", b"value1", b"key2", b"value2"],
    );
    let mut resp = Vec::new();

    assert!(SetValue::dispatch(&mut hop, &req, &mut resp).is_ok());
    assert!(matches!(hop.state().key_ref(b"foo"), Some(Value::ByteMap(m)) if m.len() == 2));
}

#[test]
fn test_set_two_entries() {
    let mut hop = Hop::new();
    let req = request(
        CommandId::SetValue,
        Some(KeyType::ByteSet),
        &[b"foo", b"value1", b"value2"],
    );
    let mut resp = Vec::new();

    assert!(SetValue::dispatch(&mut hop, &req, &mut resp).is_ok());
    assert!(matches!(hop.state().key_ref(b"foo"), Some(Value::ByteSet(s)) if s.len() == 2));
}

#[test]
fn set_test_str() {
    let mut hop = Hop::new();
    let req = request(CommandId::SetValue, Some(KeyType::String), &[b"foo", "bar".as_bytes()]);
    let mut resp = Vec::new();

    assert!(SetValue::dispatch(&mut hop, &req, &mut resp).is_ok());
    assert_eq!(resp, Response::from("bar".to_owned()).as_bytes());
    assert!(matches!(hop.state().key_ref(b"foo"), Some(Value::String(s)) if s == "bar"));
}

#[test]
fn test_set_without_key_type_uses_stored_type() {
    let mut hop = Hop::new();
    hop.state_mut().insert(b"foo".to_vec(), Value::Boolean(false));
    let req = request(CommandId::SetValue, None, &[b"foo", &[7]]);
    let mut resp = Vec::new();

    assert!(SetValue::dispatch(&mut hop, &req, &mut resp).is_ok());
    assert_eq!(resp, Response::from(true).as_bytes());

    // an absent key is made a byte string
    let req = request(CommandId::SetValue, None, &[b"bar", b"xyz"]);
    resp.clear();
    assert!(SetValue::dispatch(&mut hop, &req, &mut resp).is_ok());
    assert!(matches!(hop.state().key_ref(b"bar"), Some(Value::Bytes(b)) if b == b"xyz".to_vec()));
}

// stats

#[test]
fn test_stats_empty() {
    let req = RequestBuilder::new(CommandId::Stats).into_request();

    let mut hop = Hop::new();
    let mut resp = Vec::new();

    assert!(Stats::dispatch(&mut hop, &req, &mut resp).is_ok());
    assert_eq!(resp, Response::from(DashMap::new()).as_bytes());
}

#[test]
fn test_stats_with_entry() {
    let req = RequestBuilder::new(CommandId::Stats).into_request();

    let mut hop = Hop::new();
    hop.metrics_mut().increment(Metric::CommandsSuccessful);

    let mut resp = Vec::new();
    let expected = DashMap::new();
    expected.insert(b"commands_successful".to_vec(), 1i64.to_be_bytes().to_vec());

    assert!(Stats::dispatch(&mut hop, &req, &mut resp).is_ok());
    assert_eq!(resp, Response::from(expected).as_bytes());
}

#[test]
fn test_stats_errors_with_key_type() {
    let req = RequestBuilder::new_with_key_type(CommandId::Stats, Some(KeyType::ByteMap))
        .into_request();

    let mut hop = Hop::new();
    let mut resp = Vec::new();

    assert_eq!(
        Stats::dispatch(&mut hop, &req, &mut resp).unwrap_err(),
        DispatchError::KeyTypeUnexpected
    );
}

// type: the engine has no command id for it, so its requests are built with
// another command that has a key.

#[test]
fn test_key() {
    let req = request(CommandId::Length, None, &[b"foo", &[1]]);

    let mut hop = Hop::new();
    let mut resp = Vec::new();

    hop.state_mut().insert(b"foo".to_vec(), Value::Boolean(true));

    assert!(Type::dispatch(&mut hop, &req, &mut resp).is_ok());
    assert_eq!(resp, Response::from(KeyType::Boolean.as_u8() as i64).as_bytes());
}

#[test]
fn type_test_no_key() {
    let req = RequestBuilder::new(CommandId::Length).into_request();

    let mut hop = Hop::new();
    let mut resp = Vec::new();

    assert_eq!(
        DispatchError::KeyUnspecified,
        Type::dispatch(&mut hop, &req, &mut resp).unwrap_err()
    );
}

#[test]
fn type_test_key_type_specified() {
    let req = RequestBuilder::new_with_key_type(CommandId::Length, Some(KeyType::Boolean))
        .into_request();

    let mut hop = Hop::new();
    let mut resp = Vec::new();

    assert_eq!(
        DispatchError::KeyUnspecified,
        Type::dispatch(&mut hop, &req, &mut resp).unwrap_err()
    );
}

// append

#[test]
fn test_append_bytes_list_string() {
    let mut hop = Hop::new();
    let mut resp = Vec::new();

    let req = request(CommandId::Append, None, &[b"b", b"ab", b"cd"]);
    assert!(Append::dispatch(&mut hop, &req, &mut resp).is_ok());
    assert_eq!(resp, Response::from(b"abcd".to_vec()).as_bytes());

    resp.clear();
    let req = request(CommandId::Append, Some(KeyType::List), &[b"l", b"x"]);
    assert!(Append::dispatch(&mut hop, &req, &mut resp).is_ok());
    let req = request(CommandId::Append, None, &[b"l", b"y"]);
    resp.clear();
    assert!(Append::dispatch(&mut hop, &req, &mut resp).is_ok());
    assert_eq!(resp, Response::from(vec![b"x".to_vec(), b"y".to_vec()]).as_bytes());

    resp.clear();
    let req = request(CommandId::Append, Some(KeyType::String), &[b"s", b"hi", &[0xff], b"!"]);
    assert!(Append::dispatch(&mut hop, &req, &mut resp).is_ok());
    assert_eq!(resp, Response::from("hi!".to_owned()).as_bytes());

    resp.clear();
    let req = request(CommandId::Append, Some(KeyType::Integer), &[b"s", b"x"]);
    assert_eq!(
        Append::dispatch(&mut hop, &req, &mut resp).unwrap_err(),
        DispatchError::KeyTypeDifferent
    );
    let req = request(CommandId::Append, Some(KeyType::Bytes), &[b"s", b"x"]);
    assert_eq!(
        Append::dispatch(&mut hop, &req, &mut resp).unwrap_err(),
        DispatchError::KeyTypeDifferent
    );
    assert!(resp.is_empty());
}

// the engine

#[test]
fn test_hop_dispatch_counts() {
    let mut hop = Hop::new();
    let mut resp = Vec::new();

    let req = request(CommandId::Increment, None, &[b"n"]);
    assert!(!hop.dispatch_panics(&req));
    assert!(hop.dispatch(&req, &mut resp).is_ok());
    let req = request(CommandId::Rename, None, &[b"missing", b"other"]);
    assert_eq!(hop.dispatch(&req, &mut resp).unwrap_err(), DispatchError::KeyNonexistent);

    assert_eq!(hop.metrics().counter(Metric::CommandsSuccessful), Some(1));
    assert_eq!(hop.metrics().counter(Metric::CommandsErrored), Some(1));
    assert_eq!(hop.metrics().counter(Metric::SessionsStarted), None);

    let req = request(CommandId::Increment, None, &[b"__hop__:internal"]);
    assert!(hop.dispatch_panics(&req));
}

#[test]
fn test_float_operand() {
    let mut hop = Hop::new();
    assert_eq!(IncrementBy::float_operand(&mut hop, b"f"), Err(DispatchError::KeyTypeDifferent));
    assert!(matches!(hop.state().key_ref(b"f"), Some(Value::Integer(0))));
    hop.state_mut().insert(b"g".to_vec(), Value::Float(1.5f64.to_bits()));
    assert_eq!(IncrementBy::float_operand(&mut hop, b"g"), Ok(1.5f64.to_bits()));
}
