//! The error type of the library's fallible operations.
use vstd::prelude::*;

verus! {

/// The category of an error.
#[derive(Clone, Copy, Debug, PartialEq, Eq, Structural)]
pub enum ErrorKind {
    /// Something looked up does not exist.
    NotFound,
    /// An argument is malformed or out of range.
    InvalidInput,
    /// Any other failure.
    Other,
}

/// An error: its category and a message for the user.
#[derive(Debug)]
pub struct Error {
    pub kind: ErrorKind,
    pub message: String,
}

/// An error as values: its category and its message.
pub open spec fn error_view(e: Error) -> (ErrorKind, Seq<char>) {
    (e.kind, e.message@)
}

/// What reading a file gave: its text (`None` when the file does not exist),
/// or the error that stopped the read.
pub type FileRead = Result<Option<String>, Error>;

impl Error {
    /// A copy of the error.
    pub fn duplicate(&self) -> (r: Error)
        ensures
            error_view(r) == error_view(*self),
    {
        Error { kind: self.kind, message: self.message.clone() }
    }

    /// The category of the error.
    pub fn kind(&self) -> (r: ErrorKind)
        ensures
            r == self.kind,
    {
        self.kind
    }

    /// The error's message.
    pub fn to_message(&self) -> (r: String)
        ensures
            r@ == self.message@,
    {
        self.message.clone()
    }
}

} // verus!
