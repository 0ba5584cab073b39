use hop_engine::command::request::{Context, ParseError, RequestBuilder, RequestBuilderError};
use hop_engine::command::CommandId;
use hop_engine::state::value::Value;
use hop_engine::state::KeyType;

#[test]
fn test_cmd_id() {
    let builder = RequestBuilder::new(CommandId::Stats);
    let req = builder.into_request();

    assert_eq!(req.as_bytes(), [CommandId::Stats.as_u8()]);
    assert_eq!(req.command_id(), CommandId::Stats);
    assert_eq!(req.key_type(), None);
    assert_eq!(req.arg_count(), 0);
}

#[test]
fn test_key_type() {
    let builder = RequestBuilder::new_with_key_type(CommandId::Decrement, Some(KeyType::Integer));
    let req = builder.into_request();

    assert_eq!(
        req.as_bytes(),
        [0b1000_0000 | CommandId::Decrement.as_u8(), KeyType::Integer.as_u8(), 0]
    );
    assert_eq!(req.command_id(), CommandId::Decrement);
    assert_eq!(req.key_type(), Some(KeyType::Integer));
    assert_eq!(req.arg_count(), 0);
}

#[test]
fn test_arg_bytes() {
    let mut builder = RequestBuilder::new_with_key_type(CommandId::Append, Some(KeyType::List));
    assert!(builder.bytes(b"foo".to_vec()).is_ok());
    let req = builder.into_request();

    assert_eq!(
        req.as_bytes(),
        [
            0b1000_0000 | CommandId::Append.as_u8(),
            KeyType::List.as_u8(),
            1,
            0,
            0,
            0,
            3,
            b'f',
            b'o',
            b'o',
        ]
    );
    assert_eq!(req.command_id(), CommandId::Append);
    assert_eq!(req.key_type(), Some(KeyType::List));
    assert_eq!(req.arg_count(), 1);
    assert_eq!(req.position(0), Some(9));
}

#[test]
fn test_arg_value() {
    let mut builder = RequestBuilder::new_with_key_type(CommandId::SetValue, Some(KeyType::String));
    assert!(builder.bytes(b"foo".to_vec()).is_ok());
    assert!(builder.value(Value::Integer(123)).is_ok());
    let req = builder.into_request();

    assert_eq!(
        req.as_bytes(),
        [
            0b1000_0000 | CommandId::SetValue.as_u8(),
            KeyType::String.as_u8(),
            2,
            0,
            0,
            0,
            3,
            b'f',
            b'o',
            b'o',
            0,
            0,
            0,
            8,
            0,
            0,
            0,
            0,
            0,
            0,
            0,
            123,
        ]
    );
    assert_eq!(req.arg_count(), 2);
    assert_eq!(req.position(0), Some(9));
    assert_eq!(req.position(1), Some(21));
    assert_eq!(req.arg(1), Some(123i64.to_be_bytes().as_ref()));
}

#[test]
fn test_positions() {
    let mut builder = RequestBuilder::new(CommandId::Decrement);
    assert!(builder.bytes(b"foo".to_vec()).is_ok());
    let req = builder.into_request();

    assert_eq!(
        req.as_bytes(),
        [CommandId::Decrement.as_u8(), 1, 0, 0, 0, 3, b'f', b'o', b'o',]
    );
    assert_eq!(1, req.arg_count());
    assert_eq!(Some(8), req.position(0));

    // the engine has no command id for getting a key; another command with
    // a key stands in for it
    let mut builder = RequestBuilder::new_with_key_type(CommandId::Length, Some(KeyType::Boolean));
    assert!(builder.bytes(b"foo".to_vec()).is_ok());
    let req = builder.into_request();
    assert_eq!(1, req.arg_count());
    assert_eq!(Some(9), req.position(0));
}

#[test]
fn test_builder_errors() {
    let mut builder = RequestBuilder::new(CommandId::Echo);
    assert_eq!(builder.bytes(Vec::new()), Err(RequestBuilderError::ArgumentEmpty));
    assert_eq!(builder.value(Value::Bytes(Vec::new())), Err(RequestBuilderError::ValueEmpty));
    assert_eq!(builder.value(Value::List(Vec::new())), Err(RequestBuilderError::ValueEmpty));
    assert_eq!(builder.value(Value::String(String::new())), Err(RequestBuilderError::ValueEmpty));
    for _ in 0..255 {
        assert!(builder.bytes(b"x".to_vec()).is_ok());
    }
    assert_eq!(builder.bytes(b"x".to_vec()), Err(RequestBuilderError::TooManyArguments));
}

#[test]
fn test_increment_foo() {
    let cmd = [
        // command type 0 is "increment int"
        0, // there is 1 argument
        1, // the argument has a length of 3 bytes
        0, 0, 0, 3, // the argument is 'foo'
        b'f', b'o', b'o',
    ]
    .to_vec();

    let mut ctx = Context::new();
    let cmd = ctx
        .feed(&cmd)
        .expect("parses correctly")
        .expect("returns a command");

    assert_eq!(cmd.command_id(), CommandId::Increment);
    assert_eq!(cmd.key(), Some(b"foo".as_ref()));
}

#[test]
fn test_parse_error_try_from_u8() {
    assert_eq!(ParseError::try_from(0).unwrap(), ParseError::CommandIdInvalid);
    assert_eq!(ParseError::try_from(1).unwrap(), ParseError::KeyTypeInvalid);
}

#[test]
fn test_context_in_pieces_and_errors() {
    let mut builder = RequestBuilder::new_with_key_type(CommandId::Echo, Some(KeyType::Bytes));
    assert!(builder.bytes(b"ab".to_vec()).is_ok());
    assert!(builder.bytes(b"cde".to_vec()).is_ok());
    let bytes = builder.into_request().into_bytes();

    let mut ctx = Context::new();
    for end in 0..bytes.len() {
        assert!(ctx.feed(&bytes[..end]).unwrap().is_none());
    }
    let req = ctx.feed(&bytes).unwrap().unwrap();
    assert_eq!(req.command_id(), CommandId::Echo);
    assert_eq!(req.key_type(), Some(KeyType::Bytes));
    assert_eq!(req.arg(0), Some(b"ab".as_ref()));
    assert_eq!(req.arg(1), Some(b"cde".as_ref()));

    let mut ctx = Context::new();
    assert_eq!(ctx.feed(&[99]).unwrap_err(), ParseError::CommandIdInvalid);
    let mut ctx = Context::new();
    assert_eq!(ctx.feed(&[0b1000_0000, 42]).unwrap_err(), ParseError::KeyTypeInvalid);
}

#[test]
fn test_request_into_bytes_simple() {
    let req = RequestBuilder::new(CommandId::Stats).into_request();
    assert_eq!(
        req.into_bytes().as_slice(),
        &[
            // note bit 0 is not flipped
            0b0110_0101,
        ]
    );

    let builder = RequestBuilder::new_with_key_type(CommandId::Increment, Some(KeyType::Float));
    let req = builder.into_request();

    assert_eq!(
        req.as_bytes(),
        &[
            // now that we specify a key type, bit 0 is flipped
            0b1000_0000,
            KeyType::Float.as_u8(),
            0,
        ]
    );
}

#[test]
fn test_args() {
    let mut builder = RequestBuilder::new(CommandId::Decrement);
    assert!(builder.bytes(b"foo".to_vec()).is_ok());

    let req = builder.into_request();
    let mut args = req.args(0, None).unwrap();

    assert_eq!(Some(b"foo".as_ref()), args.next());
}

#[test]
fn test_args_many() {
    let mut builder = RequestBuilder::new(CommandId::Echo);
    assert!(builder.bytes(b"foo".to_vec()).is_ok());
    assert!(builder.bytes(b"bar".to_vec()).is_ok());
    assert!(builder.bytes(b"baz".to_vec()).is_ok());
    let req = builder.into_request();
    let mut args = req.args(0, None).unwrap();

    assert_eq!(Some(b"foo".as_ref()), args.next());
    assert_eq!(Some(b"bar".as_ref()), args.next());
    assert_eq!(Some(b"baz".as_ref()), args.next());
    assert_eq!(None, args.next());
}

#[test]
fn test_request_into_bytes_echo() {
    let mut builder = RequestBuilder::new(CommandId::Echo);
    assert!(builder.bytes(b"foo".to_vec()).is_ok());
    assert!(builder.bytes(b"bar".to_vec()).is_ok());
    let req = builder.into_request();

    assert_eq!(
        req.as_bytes(),
        &[
            // no key type
            CommandId::Echo.as_u8(),
            // number of arguments
            2,
            // argument 1 length
            0,
            0,
            0,
            3,
            // argument 1
            b'f',
            b'o',
            b'o',
            // argument 2 length
            0,
            0,
            0,
            3,
            // argument 2
            b'b',
            b'a',
            b'r',
        ]
    );
}

#[test]
fn test_request_into_bytes_increment() {
    let mut builder = RequestBuilder::new_with_key_type(CommandId::Increment, Some(KeyType::Integer));
    assert!(builder.bytes(b"key".to_vec()).is_ok());
    let req = builder.into_request();
    assert_eq!(
        req.into_bytes().as_slice(),
        &[
            // key type is specified
            0b1000_0000 | CommandId::Increment.as_u8(),
            // key type
            KeyType::Integer.as_u8(),
            // number of arguments
            1,
            // argument 1 length
            0,
            0,
            0,
            3,
            // argument 1
            b'k',
            b'e',
            b'y',
        ]
    );
}

#[test]
fn test_typed_args() {
    let mut builder = RequestBuilder::new(CommandId::SetValue);
    for arg in [b"key".as_ref(), b"a", b"1", b"b", b"2", b"c"].iter() {
        assert!(builder.bytes(arg.to_vec()).is_ok());
    }
    let req = builder.into_request();
    let map: dashmap::DashMap<Vec<u8>, Vec<u8>> = req.typed_args().unwrap();
    assert_eq!(map.len(), 2);
    assert_eq!(map.get(b"a".as_ref()).map(|v| v.value().clone()), Some(b"1".to_vec()));
    let set: dashmap::DashSet<Vec<u8>> = req.typed_args().unwrap();
    assert_eq!(set.len(), 5);
    assert_eq!(req.typed_arg::<bool>(1), Some(true));
    assert_eq!(req.typed_arg::<i64>(1), None);
}

#[test]
fn test_builder_from_request() {
    let mut builder = RequestBuilder::new_with_key_type(CommandId::Append, Some(KeyType::List));
    assert!(builder.bytes(b"foo".to_vec()).is_ok());
    assert!(builder.bytes(b"bar".to_vec()).is_ok());
    let req = builder.into_request();

    let mut again = RequestBuilder::from_request(&req);
    assert!(again.bytes(b"baz".to_vec()).is_ok());
    let req2 = again.into_request();
    assert_eq!(req2.command_id(), CommandId::Append);
    assert_eq!(req2.key_type(), Some(KeyType::List));
    assert_eq!(req2.arg_count(), 3);
    assert_eq!(req2.arg(0), Some(b"foo".as_ref()));
    assert_eq!(req2.arg(1), Some(b"bar".as_ref()));
    assert_eq!(req2.arg(2), Some(b"baz".as_ref()));
    let mut ctx = Context::new();
    let parsed = ctx.feed(req2.as_bytes()).unwrap().unwrap();
    assert_eq!(parsed.arg_count(), 3);
}

#[test]
fn test_args_bounded() {
    let mut builder = RequestBuilder::new(CommandId::Echo);
    assert!(builder.bytes(b"foo".to_vec()).is_ok());
    assert!(builder.bytes(b"bar".to_vec()).is_ok());
    assert!(builder.bytes(b"baz".to_vec()).is_ok());
    let req = builder.into_request();
    let mut args = req.args(1, Some(2)).unwrap();
    assert_eq!(args.len(), 2);
    assert_eq!(Some(b"bar".as_ref()), args.next());
    assert_eq!(None, args.next());
}
