//! The commands of the engine, each a [`Dispatch`](super::Dispatch).

mod append;
mod assign;
mod decrement;
mod decrement_by;
mod delete;
mod echo;
mod existence;
mod get;
mod increment;
mod increment_by;
mod is;
mod keys;
mod kind;
mod length;
mod rename;
mod stats;

pub use self::append::{concat_bytes, Append};
pub use self::assign::SetValue;
pub use self::decrement::Decrement;
pub use self::decrement_by::DecrementBy;
pub use self::delete::Delete;
pub use self::echo::Echo;
pub use self::existence::Exists;
pub use self::get::Get;
pub use self::increment::Increment;
pub use self::increment_by::{amount_of, increment_answer, IncrementBy};
pub use self::is::Is;
pub use self::keys::Keys;
pub use self::kind::Type;
pub use self::length::Length;
pub use self::rename::Rename;
pub use self::stats::Stats;
