//! The error type of the tools.
use vstd::prelude::*;
use crate::text::{chars_of, string_of};

verus! {

/// What can go wrong. `Io` keeps the message of the underlying I/O error.
#[derive(Debug, PartialEq, Eq)]
pub enum NiriToolsError {
    Io(String),
    Serialization(String),
    NiriCommand(String),
    Config(String),
    Other(String),
}

impl NiriToolsError {
    /// The text the error displays: a prefix naming its kind, then its message
    /// (`Other` shows the message alone).
    pub open spec fn message_spec(&self) -> Seq<char> {
        match self {
            NiriToolsError::Io(m) => "IO error: "@ + m@,
            NiriToolsError::Serialization(m) => "Serialization error: "@ + m@,
            NiriToolsError::NiriCommand(m) => "Niri command failed: "@ + m@,
            NiriToolsError::Config(m) => "Config error: "@ + m@,
            NiriToolsError::Other(m) => m@,
        }
    }

    /// The text the error displays (see [`NiriToolsError::message_spec`]).
    pub fn message(&self) -> (res: String)
        ensures
            res@ == self.message_spec(),
    {
        let (prefix, m): (&str, &String) = match self {
            NiriToolsError::Io(m) => ("IO error: ", m),
            NiriToolsError::Serialization(m) => ("Serialization error: ", m),
            NiriToolsError::NiriCommand(m) => ("Niri command failed: ", m),
            NiriToolsError::Config(m) => ("Config error: ", m),
            NiriToolsError::Other(m) => ("", m),
        };
        let mut cs = chars_of(prefix);
        let mut rest = chars_of(m.as_str());
        cs.append(&mut rest);
        proof {
            reveal_strlit("");
        }
        string_of(&cs)
    }
}

} // verus!
