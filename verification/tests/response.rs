use dashmap::{DashMap, DashSet};
use hop_engine::command::response::context::remaining_bytes;
use hop_engine::command::response::{Context, Instruction, ResponseType};
use hop_engine::command::{DispatchError, Response};
use hop_engine::state::value::Value;

// payloads

#[test]
fn response_test_bool() {
    assert_eq!(Response::from(false).into_bytes(), [ResponseType::Boolean.as_u8(), 0]);
    assert_eq!(Response::from(true).into_bytes(), [ResponseType::Boolean.as_u8(), 1]);
}

#[test]
fn response_test_bytes() {
    assert_eq!(
        Response::from(b"hopdb".to_vec()).into_bytes(),
        [ResponseType::Bytes.as_u8(), 0, 0, 0, 5, b'h', b'o', b'p', b'd', b'b'],
    );
}

#[test]
fn response_test_bytes_empty() {
    assert_eq!(
        Response::from(b"".to_vec()).into_bytes(),
        [ResponseType::Bytes.as_u8(), 0, 0, 0, 0],
    );
}

#[test]
fn response_test_float() {
    assert_eq!(
        Response::Value(Value::Float(7.4f64.to_bits())).into_bytes(),
        [ResponseType::Float.as_u8(), 64, 29, 153, 153, 153, 153, 153, 154],
    );
}

#[test]
fn response_test_int() {
    assert_eq!(
        Response::from(7).into_bytes(),
        [ResponseType::Integer.as_u8(), 0, 0, 0, 0, 0, 0, 0, 7],
    );
    assert_eq!(
        Response::from(-7).into_bytes(),
        [ResponseType::Integer.as_u8(), 255, 255, 255, 255, 255, 255, 255, 249],
    );
    assert_eq!(
        Response::from(68125).into_bytes(),
        [ResponseType::Integer.as_u8(), 0, 0, 0, 0, 0, 1, 10, 29],
    );
}

#[test]
fn response_test_list() {
    let mut list = Vec::new();
    list.push(b"hop".to_vec());
    list.push(b"db".to_vec());

    assert_eq!(
        Response::from(list).into_bytes(),
        [
            ResponseType::List.as_u8(),
            0,
            2,
            0,
            0,
            0,
            3,
            b'h',
            b'o',
            b'p',
            0,
            0,
            0,
            2,
            b'd',
            b'b',
        ],
    );
}

#[test]
fn response_test_list_empty() {
    let v: Vec<Vec<u8>> = Vec::new();

    assert_eq!(Response::from(v).into_bytes(), [ResponseType::List.as_u8(), 0, 0]);
}

#[test]
fn response_test_map() {
    let map = DashMap::new();
    map.insert(b"f".to_vec(), b"foo".to_vec());
    map.insert(b"123".to_vec(), Vec::new());

    let t = ResponseType::ByteMap.as_u8();
    let possible_values = [
        [t, 0, 2, 3, b'1', b'2', b'3', 0, 0, 0, 0, 1, b'f', 0, 0, 0, 3, b'f', b'o', b'o'],
        [t, 0, 2, 1, b'f', 0, 0, 0, 3, b'f', b'o', b'o', 3, b'1', b'2', b'3', 0, 0, 0, 0],
    ];

    let resp = Response::from(map).into_bytes();

    assert!(possible_values.iter().any(|v| v == resp.as_slice()));
}

#[test]
fn response_test_map_empty() {
    assert_eq!(
        Response::from(DashMap::new()).into_bytes(),
        [ResponseType::ByteMap.as_u8(), 0, 0]
    );
}

#[test]
fn response_test_set() {
    let map = DashSet::new();
    map.insert(b"hop".to_vec());
    map.insert(b"db".to_vec());

    let t = ResponseType::ByteSet.as_u8();
    let possible_values = [
        [t, 0, 2, 0, 3, b'h', b'o', b'p', 0, 2, b'd', b'b'],
        [t, 0, 2, 0, 2, b'd', b'b', 0, 3, b'h', b'o', b'p'],
    ];

    let resp = Response::from(map).into_bytes();

    assert!(possible_values.iter().any(|v| v == resp.as_slice()));
}

#[test]
fn response_test_set_empty() {
    assert_eq!(
        Response::from(DashSet::new()).into_bytes(),
        [ResponseType::ByteSet.as_u8(), 0, 0]
    );
}

#[test]
fn response_test_str() {
    assert_eq!(
        Response::from("foo bar baz".to_owned()).into_bytes(),
        [
            ResponseType::String.as_u8(),
            0,
            0,
            0,
            11,
            b'f',
            b'o',
            b'o',
            b' ',
            b'b',
            b'a',
            b'r',
            b' ',
            b'b',
            b'a',
            b'z',
        ],
    );
}

#[test]
fn response_test_str_empty() {
    assert_eq!(
        Response::from(String::new()).into_bytes(),
        [ResponseType::String.as_u8(), 0, 0, 0, 0]
    );
}

// framed responses

#[test]
fn mod_test_bool() {
    assert_eq!(
        Response::from(false).as_bytes(),
        [0, 0, 0, 2, ResponseType::Boolean.as_u8(), 0]
    );
    assert_eq!(
        Response::from(true).as_bytes(),
        [0, 0, 0, 2, ResponseType::Boolean.as_u8(), 1]
    );
}

#[test]
fn mod_test_bytes() {
    assert_eq!(
        Response::from(b"hopdb".to_vec()).as_bytes(),
        [0, 0, 0, 10, ResponseType::Bytes.as_u8(), 0, 0, 0, 5, b'h', b'o', b'p', b'd', b'b'],
    );
}

#[test]
fn mod_test_bytes_empty() {
    assert_eq!(
        Response::from(b"".to_vec()).as_bytes(),
        [0, 0, 0, 5, ResponseType::Bytes.as_u8(), 0, 0, 0, 0],
    );
}

#[test]
fn mod_test_float() {
    assert_eq!(
        Response::Value(Value::Float(7.4f64.to_bits())).as_bytes(),
        [0, 0, 0, 9, ResponseType::Float.as_u8(), 64, 29, 153, 153, 153, 153, 153, 154],
    );
}

#[test]
fn mod_test_int() {
    assert_eq!(
        Response::from(7).as_bytes(),
        [0, 0, 0, 9, ResponseType::Integer.as_u8(), 0, 0, 0, 0, 0, 0, 0, 7],
    );
    assert_eq!(
        Response::from(-7).as_bytes(),
        [0, 0, 0, 9, ResponseType::Integer.as_u8(), 255, 255, 255, 255, 255, 255, 255, 249],
    );
    assert_eq!(
        Response::from(68125).as_bytes(),
        [0, 0, 0, 9, ResponseType::Integer.as_u8(), 0, 0, 0, 0, 0, 1, 10, 29],
    );
}

#[test]
fn mod_test_list() {
    let mut list = Vec::new();
    list.push(b"hop".to_vec());
    list.push(b"db".to_vec());

    assert_eq!(
        Response::from(list).as_bytes(),
        [
            0,
            0,
            0,
            16,
            ResponseType::List.as_u8(),
            0,
            2,
            0,
            0,
            0,
            3,
            b'h',
            b'o',
            b'p',
            0,
            0,
            0,
            2,
            b'd',
            b'b',
        ],
    );
}

#[test]
fn mod_test_list_empty() {
    let v: Vec<Vec<u8>> = Vec::new();

    assert_eq!(
        Response::from(v).as_bytes(),
        [0, 0, 0, 3, ResponseType::List.as_u8(), 0, 0]
    );
}

#[test]
fn mod_test_map() {
    let map = DashMap::new();
    map.insert(b"f".to_vec(), b"foo".to_vec());
    map.insert(b"123".to_vec(), Vec::new());

    let t = ResponseType::ByteMap.as_u8();
    let possible_values = [
        [0, 0, 0, 20, t, 0, 2, 3, b'1', b'2', b'3', 0, 0, 0, 0, 1, b'f', 0, 0, 0, 3, b'f', b'o', b'o'],
        [0, 0, 0, 20, t, 0, 2, 1, b'f', 0, 0, 0, 3, b'f', b'o', b'o', 3, b'1', b'2', b'3', 0, 0, 0, 0],
    ];

    let resp = Response::from(map).as_bytes();

    assert!(possible_values.iter().any(|v| v == resp.as_slice()));
}

#[test]
fn mod_test_map_empty() {
    assert_eq!(
        Response::from(DashMap::new()).as_bytes(),
        [0, 0, 0, 3, ResponseType::ByteMap.as_u8(), 0, 0]
    );
}

#[test]
fn mod_test_set() {
    let map = DashSet::new();
    map.insert(b"hop".to_vec());
    map.insert(b"db".to_vec());

    let t = ResponseType::ByteSet.as_u8();
    let possible_values = [
        [0, 0, 0, 12, t, 0, 2, 0, 3, b'h', b'o', b'p', 0, 2, b'd', b'b'],
        [0, 0, 0, 12, t, 0, 2, 0, 2, b'd', b'b', 0, 3, b'h', b'o', b'p'],
    ];

    let resp = Response::from(map).as_bytes();

    assert!(possible_values.iter().any(|v| v == resp.as_slice()));
}

#[test]
fn mod_test_set_empty() {
    assert_eq!(
        Response::from(DashSet::new()).as_bytes(),
        [0, 0, 0, 3, ResponseType::ByteSet.as_u8(), 0, 0]
    );
}

#[test]
fn mod_test_str() {
    assert_eq!(
        Response::from("foo bar baz".to_owned()).as_bytes(),
        [
            0,
            0,
            0,
            16,
            ResponseType::String.as_u8(),
            0,
            0,
            0,
            11,
            b'f',
            b'o',
            b'o',
            b' ',
            b'b',
            b'a',
            b'r',
            b' ',
            b'b',
            b'a',
            b'z',
        ],
    );
}

#[test]
fn mod_test_str_empty() {
    assert_eq!(
        Response::from(String::new()).as_bytes(),
        [0, 0, 0, 5, ResponseType::String.as_u8(), 0, 0, 0, 0]
    );
}

#[test]
fn test_response_as_bytes() {
    let resp = Response::Value(Value::Integer(3));
    assert_eq!(
        resp.as_bytes(),
        [0, 0, 0, 9, ResponseType::Integer.as_u8(), 0, 0, 0, 0, 0, 0, 0, 3]
    );
}

#[test]
fn test_response_into_bytes() {
    let resp = Response::Value(Value::Integer(3));
    let mut buf = Vec::new();
    resp.copy_to(&mut buf);
    assert_eq!(buf, [0, 0, 0, 9, ResponseType::Integer.as_u8(), 0, 0, 0, 0, 0, 0, 0, 3]);
}

#[test]
fn test_error_responses() {
    assert_eq!(
        Response::from(DispatchError::KeyNonexistent).as_bytes(),
        [0, 0, 0, 2, ResponseType::DispatchError.as_u8(), 5]
    );
    assert_eq!(ResponseType::try_from(9), Ok(ResponseType::DispatchError));
    assert!(ResponseType::try_from(10).is_err());
}

// decoding

#[test]
fn test_resets_automatically() {
    let mut ctx = Context::new();

    assert!(ctx.feed(&[ResponseType::Boolean.as_u8(), 1]).is_ok());
    assert_eq!(ctx.idx(), 0);
    assert!(ctx.is_fresh());
}

#[test]
fn test_boolean() {
    let mut ctx = Context::new();

    let res = ctx.feed(&[ResponseType::Boolean.as_u8()]);
    assert!(matches!(res, Ok(Instruction::ReadBytes(1))));

    let res = ctx.feed(&[ResponseType::Boolean.as_u8(), 1]);
    assert!(matches!(
        res,
        Ok(Instruction::Concluded(Response::Value(Value::Boolean(true))))
    ));
}

#[test]
fn context_test_bytes() {
    let mut ctx = Context::new();
    let mut buf = [1u8, 0, 0, 0, 3].to_vec();
    assert!(matches!(ctx.feed(&buf), Ok(Instruction::ReadBytes(3))));
    buf.push(2);
    buf.push(3);
    assert!(matches!(ctx.feed(&buf), Ok(Instruction::ReadBytes(1))));
    buf.push(0);
    assert!(matches!(
        ctx.feed(&buf),
        Ok(Instruction::Concluded(Response::Value(Value::Bytes(x)))) if x == [2, 3, 0]),);
}

#[test]
fn test_req_dispatch_error_unfinished() {
    let mut ctx = Context::new();
    let buf = [ResponseType::DispatchError.as_u8()];
    assert!(matches!(ctx.feed(&buf), Ok(Instruction::ReadBytes(1))));
}

#[test]
fn test_req_dispatch_error_argument_retrieval() {
    let mut ctx = Context::new();
    let buf = [
        ResponseType::DispatchError.as_u8(),
        DispatchError::ArgumentRetrieval.as_u8(),
    ];
    assert!(matches!(
        ctx.feed(&buf),
        Ok(Instruction::Concluded(Response::DispatchError(
            DispatchError::ArgumentRetrieval
        )))
    ));
}

#[test]
fn test_req_dispatch_error_key_retrieval() {
    let mut ctx = Context::new();
    let buf = [
        ResponseType::DispatchError.as_u8(),
        DispatchError::KeyUnspecified.as_u8(),
    ];
    assert!(matches!(
        ctx.feed(&buf),
        Ok(Instruction::Concluded(Response::DispatchError(
            DispatchError::KeyUnspecified
        )))
    ));
}

#[test]
fn test_req_dispatch_error_wrong_type() {
    let mut ctx = Context::new();
    let buf = [
        ResponseType::DispatchError.as_u8(),
        DispatchError::WrongType.as_u8(),
    ];
    assert!(matches!(
        ctx.feed(&buf),
        Ok(Instruction::Concluded(Response::DispatchError(
            DispatchError::WrongType
        )))
    ));
}

#[test]
fn test_remaining_bytes() {
    assert_eq!(remaining_bytes(5, 5, 4), 4);
    assert_eq!(remaining_bytes(5, 7, 4), 2);
}

#[test]
fn context_test_list() {
    let mut ctx = Context::new();
    let buf = [
        ResponseType::List.as_u8(),
        0,
        2,
        0,
        0,
        0,
        3,
        b'f',
        b'o',
        b'o',
        0,
        0,
        0,
        3,
        b'b',
        b'a',
        b'r',
    ]
    .to_vec();
    assert!(matches!(
        ctx.feed(&buf),
        Ok(Instruction::Concluded(Response::Value(Value::List(list)))) if list == [b"foo", b"bar"]));
}

#[test]
fn context_test_map() {
    let mut ctx = Context::new();
    let buf = [
        ResponseType::ByteMap.as_u8(),
        0,
        1,
        3,
        b'f',
        b'o',
        b'o',
        0,
        0,
        0,
        4,
        b'b',
        b'a',
        b'r',
        b'!',
    ]
    .to_vec();
    assert!(
        matches!(ctx.feed(&buf), Ok(Instruction::Concluded(Response::Value(Value::ByteMap(map)))) if map.len() == 1)
    );
}

#[test]
fn test_map_no_items() {
    let mut ctx = Context::new();
    let buf = [ResponseType::ByteMap.as_u8(), 0, 0];
    assert!(
        matches!(ctx.feed(&buf), Ok(Instruction::Concluded(Response::Value(Value::ByteMap(map)))) if map.is_empty())
    );
}

#[test]
fn context_test_set() {
    let mut ctx = Context::new();
    let buf = [ResponseType::ByteSet.as_u8(), 0, 2, 0, 2, 5, 3, 0].to_vec();
    assert!(matches!(ctx.feed(&buf), Ok(Instruction::ReadBytes(1))));
}

#[test]
fn test_string() {
    let mut ctx = Context::new();

    let mut input = [ResponseType::String.as_u8(), 0, 0, 0, 3, b'a'].to_vec();

    let res = ctx.feed(input.as_slice());
    assert!(matches!(res, Ok(Instruction::ReadBytes(2))));

    input.push(b'b');
    let res = ctx.feed(input.as_slice());
    assert!(matches!(res, Ok(Instruction::ReadBytes(1))));

    input.push(b'c');
    let res = ctx.feed(input.as_slice());
    assert!(
        matches!(res, Ok(Instruction::Concluded(Response::Value(Value::String(x)))) if x == "abc")
    );

    assert_eq!(ctx.idx(), 0);
}

#[test]
fn test_context_errors() {
    let mut ctx = Context::new();
    assert!(matches!(
        ctx.feed(&[42]),
        Err(hop_engine::command::response::ParseError::ResponseTypeInvalid)
    ));
    let mut ctx = Context::new();
    assert!(matches!(
        ctx.feed(&[ResponseType::String.as_u8(), 0, 0, 0, 1, 0xff]),
        Err(hop_engine::command::response::ParseError::StringInvalid)
    ));
}

#[test]
fn test_payload_decodes_to_itself() {
    let values = [
        Response::from(true),
        Response::from(b"abc".to_vec()),
        Response::from(-5),
        Response::from(vec![b"x".to_vec(), b"yz".to_vec()]),
        Response::from("héllo".to_owned()),
        Response::from(DispatchError::KeyNonexistent),
    ];
    for value in values.iter() {
        let bytes = value.into_bytes();
        let mut ctx = Context::new();
        match ctx.feed(&bytes) {
            Ok(Instruction::Concluded(decoded)) => assert_eq!(decoded.into_bytes(), bytes),
            _ => panic!("the payload did not decode"),
        }
    }
}

#[test]
fn test_list_and_set_no_items() {
    let mut ctx = Context::new();
    assert!(matches!(
        ctx.feed(&[ResponseType::List.as_u8(), 0, 0]),
        Ok(Instruction::Concluded(Response::Value(Value::List(l)))) if l.is_empty()
    ));
    assert_eq!(ctx.idx(), 0);
    assert!(matches!(
        ctx.feed(&[ResponseType::ByteSet.as_u8(), 0, 0]),
        Ok(Instruction::Concluded(Response::Value(Value::ByteSet(s)))) if s.is_empty()
    ));
    let empty: Vec<Vec<u8>> = Vec::new();
    let bytes = Response::from(empty).into_bytes();
    let mut ctx = Context::new();
    assert!(matches!(
        ctx.feed(&bytes),
        Ok(Instruction::Concluded(Response::Value(Value::List(l)))) if l.is_empty()
    ));
}

#[test]
fn test_missing_bytes_exact() {
    let mut ctx = Context::new();
    let map = [ResponseType::ByteMap.as_u8(), 0, 1, 1, b'k', 0, 0, 0, 1];
    assert!(matches!(ctx.feed(&map), Ok(Instruction::ReadBytes(1))));
    assert!(matches!(ctx.feed(&map[..6]), Ok(Instruction::ReadBytes(3))));
    assert!(matches!(ctx.feed(&map[..4]), Ok(Instruction::ReadBytes(1))));
    let mut ctx = Context::new();
    let set = [ResponseType::ByteSet.as_u8(), 0, 1, 0, 1];
    assert!(matches!(ctx.feed(&set), Ok(Instruction::ReadBytes(1))));
    let mut ctx = Context::new();
    let list = [ResponseType::List.as_u8(), 0, 1, 0, 0, 0, 2, b'a'];
    assert!(matches!(ctx.feed(&list), Ok(Instruction::ReadBytes(1))));
}
