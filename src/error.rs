//! The library's error value: a kind and a message for people.
use vstd::prelude::*;

verus! {

/// What went wrong, in the vocabulary of the standard I/O error kinds.
#[derive(Clone, Copy, Debug, PartialEq, Eq, Structural)]
pub enum XsErrorKind {
    InvalidInput,
    PermissionDenied,
    AlreadyExists,
    NotFound,
    OutOfMemory,
    Unsupported,
    WouldBlock,
    AddrInUse,
    InvalidData,
    BrokenPipe,
    UnexpectedEof,
    Other,
}

/// An error with its kind and a message.
#[derive(Clone, Debug)]
pub struct XsError {
    pub kind: XsErrorKind,
    pub message: String,
}

impl XsError {
    pub fn new(kind: XsErrorKind, message: &str) -> (r: XsError)
        ensures
            r.kind == kind,
            r.message@ == message@,
    {
        XsError { kind, message: message.to_owned() }
    }
}

} // verus!
