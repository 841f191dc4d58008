//! Command-line argument parsing with verified contracts.
//!
//! A [`MagicArgman`] is built from the process arguments. Flags are then
//! registered one by one: an optional flag, a required flag, a solo flag
//! that takes no value, and the positional input. Each registration scans
//! the arguments and either stores the value it finds under the flag's name
//! or records a [`MagicErr`] that says why it could not. No registration
//! stops at a problem: all of them are collected, in the order in which they
//! were met. Values are read back by name and type.
//!
//! A value is a `bool`, a `char`, an integer of any width or a `String`:
//! the types that implement [`MagicType`]. It is kept in a [`MagicValue`]
//! beside its type, and handed back only to a reader that asks for exactly
//! that type.
//!
//! What each call does is stated over a [`Session`], the state of a manager
//! as plain data.

pub mod argman;
pub mod error;
pub mod number;
pub mod session;
pub mod text;
pub mod value;

pub use argman::MagicArgman;
pub use error::{Fault, MagicErr};
pub use session::Session;
pub use text::{format_token, Style};
pub use value::{Datum, IntType, MagicType, MagicValue, Payload, Tag};
