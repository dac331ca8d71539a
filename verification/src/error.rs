//! The ways a command can fail, and what the top level does about each.

use vstd::prelude::*;

verus! {

/// Why a prompt or a command did not produce a value.
#[derive(Clone, Copy, Debug, PartialEq, Eq, Structural)]
pub enum Error {
    /// The user cancelled, or the input ended while a prompt was waiting.
    Interrupted,
    /// The terminal or the storage failed.
    Io,
    /// A request named something that does not exist or cannot be used.
    Validation,
}

/// How a finished command leaves the program.
#[derive(Clone, Copy, Debug, PartialEq, Eq, Structural)]
pub enum Exit {
    /// The command ran to its end.
    Success,
    /// The user cancelled: a short notice is shown and the exit code is not zero.
    Cancelled,
    /// The command failed for a reason other than a cancellation.
    Failure(Error),
}

impl Error {
    /// A short text for this error.
    pub fn message(&self) -> (text: &'static str)
        ensures
            text@ == match *self {
                Error::Interrupted => "Interrupted"@,
                Error::Io => "Terminal or storage failure"@,
                Error::Validation => "Invalid request"@,
            },
    {
        match self {
            Error::Interrupted => "Interrupted",
            Error::Io => "Terminal or storage failure",
            Error::Validation => "Invalid request",
        }
    }
}

/// Tells a cancellation apart from every other way a command can end.
pub fn handle_interrupt(result: Result<(), Error>) -> (exit: Exit)
    ensures
        exit == match result {
            Ok(_) => Exit::Success,
            Err(Error::Interrupted) => Exit::Cancelled,
            Err(e) => Exit::Failure(e),
        },
{
    match result {
        Ok(_) => Exit::Success,
        Err(Error::Interrupted) => Exit::Cancelled,
        Err(e) => Exit::Failure(e),
    }
}

} // verus!
