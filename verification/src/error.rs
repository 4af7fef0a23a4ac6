//! The ways in which a launch can fail.

use vstd::prelude::*;

verus! {

/// Why a launch failed. Every failure concerns one instance only.
#[derive(Debug, PartialEq, Eq)]
pub enum LaunchError {
    /// The instance name is empty.
    InvalidName,
    /// The name is registered and its instance is still live.
    Conflict,
    /// The instance could not be started.
    StartError,
    /// The instance ran and then ended with this error.
    RuntimeError(String),
}

impl LaunchError {
    /// The text that reports the error to the host process.
    pub open spec fn message_text(self) -> Seq<char> {
        match self {
            LaunchError::InvalidName => "invalid instance name"@,
            LaunchError::Conflict => "instance name is already in use"@,
            LaunchError::StartError => "instance failed to start"@,
            LaunchError::RuntimeError(message) => message@,
        }
    }

    /// Reports the error as text: the instance's own words for a runtime
    /// error, a fixed sentence for the others.
    pub fn message(&self) -> (s: String)
        ensures
            s@ == self.message_text(),
    {
        match self {
            LaunchError::InvalidName => String::from_str("invalid instance name"),
            LaunchError::Conflict => String::from_str("instance name is already in use"),
            LaunchError::StartError => String::from_str("instance failed to start"),
            LaunchError::RuntimeError(message) => message.clone(),
        }
    }
}

} // verus!
