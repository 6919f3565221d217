//! The ways in which an operation fails.

use vstd::prelude::*;
use vstd::string::StringExecFns;

verus! {

/// Why an operation did not complete.
#[derive(Debug, PartialEq, Eq, Clone, Copy, Structural)]
pub enum EnvError {
    /// The shell is neither zsh nor bash.
    UnsupportedShell,
    /// A file or registry operation failed.
    IOError,
    /// An environment variable could not be read.
    VarError,
}

/// The words with which every message begins.
pub open spec fn message_head() -> Seq<char> {
    "ENV operation error : "@
}

impl EnvError {
    /// What the message says after its head.
    pub open spec fn detail(self) -> Seq<char> {
        match self {
            EnvError::UnsupportedShell => "Unsupported shell"@,
            EnvError::IOError => "I/O error"@,
            EnvError::VarError => "error while getting or setting env"@,
        }
    }

    /// The text shown to a user for this error.
    pub fn message(&self) -> (text: String)
        ensures
            text@ == message_head() + self.detail(),
    {
        let head = String::from_str("ENV operation error : ");
        match self {
            EnvError::UnsupportedShell => head.concat("Unsupported shell"),
            EnvError::IOError => head.concat("I/O error"),
            EnvError::VarError => head.concat("error while getting or setting env"),
        }
    }
}

} // verus!
