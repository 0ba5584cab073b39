use hop_engine::command::error::Error;
use hop_engine::command::{ArgumentNotation, CommandId};

#[test]
fn test_from_str() {
    assert_eq!(CommandId::Append, CommandId::from_str("append").unwrap());
    assert_eq!(CommandId::DecrementBy, CommandId::from_str("decrement:by").unwrap());
    assert_eq!(CommandId::Decrement, CommandId::from_str("decrement").unwrap());
    assert_eq!(CommandId::Delete, CommandId::from_str("delete").unwrap());
    assert_eq!(CommandId::Echo, CommandId::from_str("echo").unwrap());
    assert_eq!(CommandId::Exists, CommandId::from_str("exists").unwrap());
    assert_eq!(CommandId::IncrementBy, CommandId::from_str("increment:by").unwrap());
    assert_eq!(CommandId::Increment, CommandId::from_str("increment").unwrap());
    assert_eq!(CommandId::Is, CommandId::from_str("is").unwrap());
    assert_eq!(CommandId::Length, CommandId::from_str("length").unwrap());
    assert_eq!(CommandId::Rename, CommandId::from_str("rename").unwrap());
    assert_eq!(CommandId::SetValue, CommandId::from_str("set").unwrap());
    assert_eq!(CommandId::Stats, CommandId::from_str("stats").unwrap());
}

#[test]
fn test_try_from_u8() {
    assert_eq!(CommandId::Append, CommandId::try_from(20).unwrap());
    assert_eq!(CommandId::DecrementBy, CommandId::try_from(3).unwrap());
    assert_eq!(CommandId::Decrement, CommandId::try_from(1).unwrap());
    assert_eq!(CommandId::Delete, CommandId::try_from(12).unwrap());
    assert_eq!(CommandId::Echo, CommandId::try_from(100).unwrap());
    assert_eq!(CommandId::Exists, CommandId::try_from(13).unwrap());
    assert_eq!(CommandId::IncrementBy, CommandId::try_from(2).unwrap());
    assert_eq!(CommandId::Increment, CommandId::try_from(0).unwrap());
    assert_eq!(CommandId::Is, CommandId::from_str("is").unwrap());
    assert_eq!(CommandId::Length, CommandId::try_from(21).unwrap());
    assert_eq!(CommandId::Rename, CommandId::try_from(15).unwrap());
    assert_eq!(CommandId::SetValue, CommandId::try_from(10).unwrap());
    assert_eq!(CommandId::Stats, CommandId::try_from(101).unwrap());
}

#[test]
fn test_name() {
    assert_eq!("append", CommandId::Append.name());
    assert_eq!("decrement:by", CommandId::DecrementBy.name());
    assert_eq!("decrement", CommandId::Decrement.name());
    assert_eq!("delete", CommandId::Delete.name());
    assert_eq!("echo", CommandId::Echo.name());
    assert_eq!("exists", CommandId::Exists.name());
    assert_eq!("increment:by", CommandId::IncrementBy.name());
    assert_eq!("increment", CommandId::Increment.name());
    assert_eq!("is", CommandId::Is.name());
    assert_eq!("length", CommandId::Length.name());
    assert_eq!("rename", CommandId::Rename.name());
    assert_eq!("set", CommandId::SetValue.name());
    assert_eq!("stats", CommandId::Stats.name());
}

#[test]
fn test_command_id_roundtrip_all_codes() {
    for code in 0..=255u8 {
        if let Ok(id) = CommandId::try_from(code) {
            assert_eq!(id.as_u8(), code);
            assert_eq!(CommandId::from_str(id.name()).unwrap(), id);
        }
    }
    assert!(CommandId::try_from(4).is_err());
    assert!(CommandId::try_from(255).is_err());
    assert!(CommandId::from_str("get").is_err());
}

#[test]
fn test_argument_notation_and_key() {
    assert_eq!(CommandId::Stats.argument_notation(), ArgumentNotation::Zero);
    assert!(CommandId::Stats.is_simple());
    assert!(!CommandId::Stats.has_key());
    assert!(CommandId::Increment.has_key());
    assert!(!CommandId::Echo.has_key());
    assert_eq!(CommandId::Echo.argument_notation(), ArgumentNotation::Multiple);
}

#[test]
fn test_error_try_from_u8() {
    let variants = [
        Error::ArgumentRetrieval,
        Error::KeyUnspecified,
        Error::WrongType,
        Error::KeyNonexistent,
        Error::KeyTypeUnexpected,
        Error::PreconditionFailed,
    ];

    for variant in variants.iter() {
        assert!(matches!(Error::try_from(variant.as_u8()), Ok(v) if v == *variant));
    }
}

#[test]
fn test_error_codes_and_messages() {
    assert_eq!(Error::KeyTypeInvalid.as_u8(), 8);
    assert!(Error::try_from(9).is_err());
    for code in 6..=255u8 {
        assert!(Error::try_from(code).is_err());
    }
    assert_eq!(Error::KeyUnspecified.message(), "the key wasn't specified");
}
