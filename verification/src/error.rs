//! The error that adapters and backends hand back.

use vstd::prelude::*;

verus! {

/// What went wrong, by kind.
#[derive(Clone, Copy, Debug, PartialEq, Eq, Structural)]
pub enum ErrorKind {
    /// A failure that the engine does not interpret.
    Unexpected,
    /// The operation is one that the service does not offer.
    Unsupported,
}

/// An error: its kind, a message, and the operation that raised it (empty
/// while none was named).
#[derive(Debug)]
pub struct Error {
    kind: ErrorKind,
    message: String,
    operation: String,
}

/// The mathematical value of an [`Error`].
pub ghost struct ErrorView {
    pub kind: ErrorKind,
    pub message: Seq<char>,
    pub operation: Seq<char>,
}

impl View for Error {
    type V = ErrorView;

    closed spec fn view(&self) -> ErrorView {
        ErrorView { kind: self.kind, message: self.message@, operation: self.operation@ }
    }
}

impl Error {
    pub fn new(kind: ErrorKind, message: &str) -> (e: Error)
        ensures
            e@ == (ErrorView { kind, message: message@, operation: Seq::empty() }),
    {
        Error { kind, message: message.to_owned(), operation: String::new() }
    }

    /// Names the operation that raised the error.
    pub fn with_operation(self, operation: &str) -> (e: Error)
        ensures
            e@ == (ErrorView { operation: operation@, ..self@ }),
    {
        Error { kind: self.kind, message: self.message, operation: operation.to_owned() }
    }

    pub fn kind(&self) -> (k: ErrorKind)
        ensures
            k == self@.kind,
    {
        self.kind
    }

    pub fn message(&self) -> (m: &str)
        ensures
            m@ == self@.message,
    {
        self.message.as_str()
    }

    pub fn operation(&self) -> (o: &str)
        ensures
            o@ == self@.operation,
    {
        self.operation.as_str()
    }
}

} // verus!
