//! The problems that registering a flag can meet.

use vstd::prelude::*;

verus! {

/// A problem met while reading the arguments. Each kind but the last carries
/// the name of the flag that it concerns.
pub enum MagicErr {
    /// A required flag has no value.
    FlagErr(String),
    /// The text after the flag cannot be read as a value of the type asked for.
    ParseErr(String),
    /// The flag is the last argument, so no value follows it.
    ValueErr(String),
    /// The positional input was asked for, and there are no arguments.
    InputErr,
}

/// A problem as plain data.
pub enum Fault {
    Flag(Seq<char>),
    Parse(Seq<char>),
    Value(Seq<char>),
    Input,
}

impl View for MagicErr {
    type V = Fault;

    open spec fn view(&self) -> Fault {
        match self {
            MagicErr::FlagErr(name) => Fault::Flag(name@),
            MagicErr::ParseErr(name) => Fault::Parse(name@),
            MagicErr::ValueErr(name) => Fault::Value(name@),
            MagicErr::InputErr => Fault::Input,
        }
    }
}

impl DeepView for MagicErr {
    type V = Fault;

    open spec fn deep_view(&self) -> Fault {
        self@
    }
}

} // verus!
