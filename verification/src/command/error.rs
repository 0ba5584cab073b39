//! Errors that dispatching a command can end in.

use vstd::prelude::*;

verus! {

/// The reason a command could not be carried out.
///
/// On the wire each error is one byte (see [`Error::as_u8`]); only the
/// codes 0 to 5 are read back (see [`Error::try_from`]).
#[derive(Clone, Copy, Debug, PartialEq, Eq, Hash, Structural)]
pub enum Error {
    ArgumentRetrieval,
    KeyUnspecified,
    WrongType,
    KeyTypeUnexpected,
    PreconditionFailed,
    KeyNonexistent,
    KeyTypeDifferent,
    KeyTypeRequired,
    KeyTypeInvalid,
}

/// The outcome of dispatching a command.
pub type Result<T> = core::result::Result<T, Error>;

impl Error {
    pub open spec fn spec_code(self) -> u8 {
        match self {
            Error::ArgumentRetrieval => 0,
            Error::KeyUnspecified => 1,
            Error::WrongType => 2,
            Error::KeyTypeUnexpected => 3,
            Error::PreconditionFailed => 4,
            Error::KeyNonexistent => 5,
            Error::KeyTypeDifferent => 6,
            Error::KeyTypeRequired => 7,
            Error::KeyTypeInvalid => 8,
        }
    }

    pub open spec fn spec_from_u8(value: u8) -> Option<Error> {
        if value == 0 {
            Some(Error::ArgumentRetrieval)
        } else if value == 1 {
            Some(Error::KeyUnspecified)
        } else if value == 2 {
            Some(Error::WrongType)
        } else if value == 3 {
            Some(Error::KeyTypeUnexpected)
        } else if value == 4 {
            Some(Error::PreconditionFailed)
        } else if value == 5 {
            Some(Error::KeyNonexistent)
        } else {
            None
        }
    }

    /// The wire code of the error.
    pub fn as_u8(self) -> (r: u8)
        ensures
            r == self.spec_code(),
    {
        match self {
            Error::ArgumentRetrieval => 0,
            Error::KeyUnspecified => 1,
            Error::WrongType => 2,
            Error::KeyTypeUnexpected => 3,
            Error::PreconditionFailed => 4,
            Error::KeyNonexistent => 5,
            Error::KeyTypeDifferent => 6,
            Error::KeyTypeRequired => 7,
            Error::KeyTypeInvalid => 8,
        }
    }

    /// The error with the given wire code. Only the codes 0 to 5 are read
    /// back; the codes of `KeyTypeDifferent`, `KeyTypeRequired` and
    /// `KeyTypeInvalid` are written but not read.
    pub fn try_from(value: u8) -> (r: core::result::Result<Error, ()>)
        ensures
            match Error::spec_from_u8(value) {
                Some(e) => r == Ok::<Error, ()>(e),
                None => r == Err::<Error, ()>(()),
            },
    {
        match value {
            0 => Ok(Error::ArgumentRetrieval),
            1 => Ok(Error::KeyUnspecified),
            2 => Ok(Error::WrongType),
            3 => Ok(Error::KeyTypeUnexpected),
            4 => Ok(Error::PreconditionFailed),
            5 => Ok(Error::KeyNonexistent),
            _ => Err(()),
        }
    }

    pub open spec fn spec_message(&self) -> &'static str {
        match self {
            Error::ArgumentRetrieval => "couldn't retrieve required argument",
            Error::KeyUnspecified => "the key wasn't specified",
            Error::KeyNonexistent => "the specified key does not exist",
            Error::KeyTypeUnexpected => "didn't expect a specified request key type",
            Error::PreconditionFailed => "a precondition for the command failed",
            Error::WrongType => "the key has the wrong type",
            Error::KeyTypeDifferent => "the key has a different type than requested",
            Error::KeyTypeRequired => "a key type is required for the command",
            Error::KeyTypeInvalid => "the key type is invalid for the command",
        }
    }

    /// A human-readable description of the error.
    pub fn message(&self) -> (r: &'static str)
        ensures
            r@ == self.spec_message()@,
    {
        match self {
            Error::ArgumentRetrieval => "couldn't retrieve required argument",
            Error::KeyUnspecified => "the key wasn't specified",
            Error::KeyNonexistent => "the specified key does not exist",
            Error::KeyTypeUnexpected => "didn't expect a specified request key type",
            Error::PreconditionFailed => "a precondition for the command failed",
            Error::WrongType => "the key has the wrong type",
            Error::KeyTypeDifferent => "the key has a different type than requested",
            Error::KeyTypeRequired => "a key type is required for the command",
            Error::KeyTypeInvalid => "the key type is invalid for the command",
        }
    }
}

/// Whether the error is one of those that a wire code is read back as.
pub open spec fn is_readable(e: Error) -> bool {
    e.spec_code() <= 5
}

/// Every error whose code is at most 5 is found again from its code, and
/// no error from a larger code.
pub proof fn lemma_error_code_roundtrip(e: Error)
    ensures
        is_readable(e) ==> Error::spec_from_u8(e.spec_code()) == Some(e),
        !is_readable(e) ==> Error::spec_from_u8(e.spec_code()) is None,
{
}

} // verus!
