//! Errors that the library reports.

use vstd::prelude::*;

verus! {

/// The kind of a reported error.
#[derive(Clone, Copy, Debug, PartialEq, Eq, Structural)]
pub enum ErrorKind {
    /// An argument was refused (a glob pattern that does not compile).
    InvalidInput,
    /// A path does not exist.
    NotFound,
    /// Anything else (a scan that is still running, a worker that failed).
    Other,
}

/// An error with its kind and message.
#[derive(Debug)]
pub struct ScandirError {
    pub kind: ErrorKind,
    pub message: String,
}

impl ScandirError {
    /// An error of kind `Other` with the given message.
    pub fn other(message: String) -> (r: ScandirError)
        ensures
            r.kind == ErrorKind::Other,
            r.message@ == message@,
    {
        ScandirError { kind: ErrorKind::Other, message }
    }

    /// The error reported when a scan is started while one is still running.
    pub fn busy() -> (r: ScandirError)
        ensures
            r.kind == ErrorKind::Other,
            r.message@ == "Busy"@,
    {
        ScandirError { kind: ErrorKind::Other, message: String::from_str("Busy") }
    }
}

} // verus!
