//! Errors of the trusted setup.

use vstd::prelude::*;
use vstd::string::StringExecFns;

verus! {

/// What can go wrong while keys are generated, written or read.
#[derive(Debug)]
pub enum SetupError {
    /// The proof system could not derive keys for a circuit.
    CircuitSetup(String),
    /// A key could not be turned into bytes.
    Serialization(String),
    /// Bytes could not be turned into a key.
    Deserialization(String),
    /// Reading or writing a key file failed.
    Io(String),
}

impl SetupError {
    /// The text that goes before the detail of each error.
    pub open spec fn prefix_spec(self) -> Seq<char> {
        match self {
            SetupError::CircuitSetup(_) => "Circuit setup failed: "@,
            SetupError::Serialization(_) => "Serialization failed: "@,
            SetupError::Deserialization(_) => "Deserialization failed: "@,
            SetupError::Io(_) => "IO error: "@,
        }
    }

    /// The detail that the error carries.
    pub open spec fn detail_spec(self) -> Seq<char> {
        match self {
            SetupError::CircuitSetup(s) => s@,
            SetupError::Serialization(s) => s@,
            SetupError::Deserialization(s) => s@,
            SetupError::Io(s) => s@,
        }
    }

    /// The error as a line of text.
    pub fn message(&self) -> (out: String)
        ensures
            out@ == self.prefix_spec() + self.detail_spec(),
    {
        match self {
            SetupError::CircuitSetup(s) => String::from_str("Circuit setup failed: ").concat(
                s.as_str(),
            ),
            SetupError::Serialization(s) => String::from_str("Serialization failed: ").concat(
                s.as_str(),
            ),
            SetupError::Deserialization(s) => String::from_str("Deserialization failed: ").concat(
                s.as_str(),
            ),
            SetupError::Io(s) => String::from_str("IO error: ").concat(s.as_str()),
        }
    }
}

} // verus!
