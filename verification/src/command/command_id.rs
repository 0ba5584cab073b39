//! Identifiers of the commands that the engine understands.

use crate::codec::str_eq;
use vstd::prelude::*;

verus! {

/// How many arguments a command takes besides its key.
#[derive(Clone, Copy, Debug, PartialEq, Eq, Structural)]
pub enum ArgumentNotation {
    Multiple,
    Zero,
    One,
}

/// The error of converting a byte or a name that names no command.
#[derive(Clone, Copy, Debug, PartialEq, Eq, Structural)]
pub struct InvalidCommandId;

/// A command of the engine.
///
/// Each command has a one-byte identifier on the wire (see [`CommandId::as_u8`])
/// and a textual name (see [`CommandId::name`]).
#[derive(Clone, Copy, Debug, PartialEq, Eq, Hash, PartialOrd, Ord, Structural)]
pub enum CommandId {
    Increment,
    Decrement,
    IncrementBy,
    DecrementBy,
    SetValue,
    Delete,
    Exists,
    Is,
    Rename,
    Append,
    Length,
    Echo,
    Stats,
}

impl CommandId {
    /// The wire identifier of a command.
    pub open spec fn spec_id(self) -> u8 {
        match self {
            CommandId::Increment => 0,
            CommandId::Decrement => 1,
            CommandId::IncrementBy => 2,
            CommandId::DecrementBy => 3,
            CommandId::SetValue => 10,
            CommandId::Delete => 12,
            CommandId::Exists => 13,
            CommandId::Is => 14,
            CommandId::Rename => 15,
            CommandId::Append => 20,
            CommandId::Length => 21,
            CommandId::Echo => 100,
            CommandId::Stats => 101,
        }
    }

    /// The command whose wire identifier is `num`, if any.
    pub open spec fn spec_from_u8(num: u8) -> Option<CommandId> {
        if num == 0 {
            Some(CommandId::Increment)
        } else if num == 1 {
            Some(CommandId::Decrement)
        } else if num == 2 {
            Some(CommandId::IncrementBy)
        } else if num == 3 {
            Some(CommandId::DecrementBy)
        } else if num == 10 {
            Some(CommandId::SetValue)
        } else if num == 12 {
            Some(CommandId::Delete)
        } else if num == 13 {
            Some(CommandId::Exists)
        } else if num == 14 {
            Some(CommandId::Is)
        } else if num == 15 {
            Some(CommandId::Rename)
        } else if num == 20 {
            Some(CommandId::Append)
        } else if num == 21 {
            Some(CommandId::Length)
        } else if num == 100 {
            Some(CommandId::Echo)
        } else if num == 101 {
            Some(CommandId::Stats)
        } else {
            None
        }
    }

    /// The textual name of a command.
    pub open spec fn spec_name(self) -> Seq<char> {
        match self {
            CommandId::Append => "append"@,
            CommandId::DecrementBy => "decrement:by"@,
            CommandId::Decrement => "decrement"@,
            CommandId::Delete => "delete"@,
            CommandId::Echo => "echo"@,
            CommandId::Exists => "exists"@,
            CommandId::IncrementBy => "increment:by"@,
            CommandId::Increment => "increment"@,
            CommandId::Is => "is"@,
            CommandId::Length => "length"@,
            CommandId::Rename => "rename"@,
            CommandId::SetValue => "set"@,
            CommandId::Stats => "stats"@,
        }
    }

    pub open spec fn spec_argument_notation(self) -> ArgumentNotation {
        match self {
            CommandId::Append => ArgumentNotation::One,
            CommandId::Delete => ArgumentNotation::One,
            CommandId::Echo => ArgumentNotation::Multiple,
            CommandId::Exists => ArgumentNotation::Multiple,
            CommandId::Increment => ArgumentNotation::Zero,
            CommandId::IncrementBy => ArgumentNotation::One,
            CommandId::Is => ArgumentNotation::Multiple,
            CommandId::Decrement => ArgumentNotation::Zero,
            CommandId::DecrementBy => ArgumentNotation::One,
            CommandId::Length => ArgumentNotation::One,
            CommandId::Rename => ArgumentNotation::One,
            CommandId::SetValue => ArgumentNotation::Multiple,
            CommandId::Stats => ArgumentNotation::Zero,
        }
    }

    pub open spec fn spec_has_key(self) -> bool {
        !(self is Echo || self is Stats)
    }

    /// A simple command has neither arguments nor a key, so its request is a
    /// single byte.
    pub open spec fn spec_is_simple(self) -> bool {
        self.spec_argument_notation() == ArgumentNotation::Zero && !self.spec_has_key()
    }

    /// The wire identifier of the command.
    pub fn as_u8(self) -> (r: u8)
        ensures
            r == self.spec_id(),
    {
        match self {
            CommandId::Increment => 0,
            CommandId::Decrement => 1,
            CommandId::IncrementBy => 2,
            CommandId::DecrementBy => 3,
            CommandId::SetValue => 10,
            CommandId::Delete => 12,
            CommandId::Exists => 13,
            CommandId::Is => 14,
            CommandId::Rename => 15,
            CommandId::Append => 20,
            CommandId::Length => 21,
            CommandId::Echo => 100,
            CommandId::Stats => 101,
        }
    }

    /// The command with the given wire identifier.
    pub fn try_from(num: u8) -> (r: Result<CommandId, InvalidCommandId>)
        ensures
            match CommandId::spec_from_u8(num) {
                Some(c) => r == Ok::<CommandId, InvalidCommandId>(c),
                None => r == Err::<CommandId, InvalidCommandId>(InvalidCommandId),
            },
    {
        match num {
            0 => Ok(CommandId::Increment),
            1 => Ok(CommandId::Decrement),
            2 => Ok(CommandId::IncrementBy),
            3 => Ok(CommandId::DecrementBy),
            10 => Ok(CommandId::SetValue),
            12 => Ok(CommandId::Delete),
            13 => Ok(CommandId::Exists),
            14 => Ok(CommandId::Is),
            15 => Ok(CommandId::Rename),
            20 => Ok(CommandId::Append),
            21 => Ok(CommandId::Length),
            100 => Ok(CommandId::Echo),
            101 => Ok(CommandId::Stats),
            _ => Err(InvalidCommandId),
        }
    }

    /// The command with the given textual name.
    pub fn from_str(s: &str) -> (r: Result<CommandId, InvalidCommandId>)
        ensures
            match r {
                Ok(c) => s@ == c.spec_name(),
                Err(_) => forall|c: CommandId| s@ != c.spec_name(),
            },
    {
        if str_eq(s, "append") {
            Ok(CommandId::Append)
        } else if str_eq(s, "decrement:by") {
            Ok(CommandId::DecrementBy)
        } else if str_eq(s, "decrement") {
            Ok(CommandId::Decrement)
        } else if str_eq(s, "delete") {
            Ok(CommandId::Delete)
        } else if str_eq(s, "echo") {
            Ok(CommandId::Echo)
        } else if str_eq(s, "exists") {
            Ok(CommandId::Exists)
        } else if str_eq(s, "increment:by") {
            Ok(CommandId::IncrementBy)
        } else if str_eq(s, "increment") {
            Ok(CommandId::Increment)
        } else if str_eq(s, "is") {
            Ok(CommandId::Is)
        } else if str_eq(s, "length") {
            Ok(CommandId::Length)
        } else if str_eq(s, "rename") {
            Ok(CommandId::Rename)
        } else if str_eq(s, "set") {
            Ok(CommandId::SetValue)
        } else if str_eq(s, "stats") {
            Ok(CommandId::Stats)
        } else {
            Err(InvalidCommandId)
        }
    }

    pub fn argument_notation(self) -> (r: ArgumentNotation)
        ensures
            r == self.spec_argument_notation(),
    {
        match self {
            CommandId::Append => ArgumentNotation::One,
            CommandId::Delete => ArgumentNotation::One,
            CommandId::Echo => ArgumentNotation::Multiple,
            CommandId::Exists => ArgumentNotation::Multiple,
            CommandId::Increment => ArgumentNotation::Zero,
            CommandId::IncrementBy => ArgumentNotation::One,
            CommandId::Is => ArgumentNotation::Multiple,
            CommandId::Decrement => ArgumentNotation::Zero,
            CommandId::DecrementBy => ArgumentNotation::One,
            CommandId::Length => ArgumentNotation::One,
            CommandId::Rename => ArgumentNotation::One,
            CommandId::SetValue => ArgumentNotation::Multiple,
            CommandId::Stats => ArgumentNotation::Zero,
        }
    }

    pub fn has_key(self) -> (r: bool)
        ensures
            r == self.spec_has_key(),
    {
        match self {
            CommandId::Echo | CommandId::Stats => false,
            _ => true,
        }
    }

    pub fn is_simple(self) -> (r: bool)
        ensures
            r == self.spec_is_simple(),
    {
        self.argument_notation() == ArgumentNotation::Zero && !self.has_key()
    }

    /// The textual name of the command.
    pub fn name(&self) -> (r: &str)
        ensures
            r@ == self.spec_name(),
    {
        match self {
            CommandId::Append => "append",
            CommandId::DecrementBy => "decrement:by",
            CommandId::Decrement => "decrement",
            CommandId::Delete => "delete",
            CommandId::Echo => "echo",
            CommandId::Exists => "exists",
            CommandId::IncrementBy => "increment:by",
            CommandId::Increment => "increment",
            CommandId::Is => "is",
            CommandId::Length => "length",
            CommandId::Rename => "rename",
            CommandId::SetValue => "set",
            CommandId::Stats => "stats",
        }
    }
}

/// Every command is found again from its own wire identifier.
pub proof fn lemma_command_id_roundtrip(c: CommandId)
    ensures
        CommandId::spec_from_u8(c.spec_id()) == Some(c),
{
}

/// A byte names a command exactly when it is that command's identifier.
pub proof fn lemma_command_id_from_u8_inverse(num: u8)
    ensures
        CommandId::spec_from_u8(num) matches Some(c) ==> c.spec_id() == num,
{
}

} // verus!
