//! Error values shared by every component of the evaluation core.

use vstd::prelude::*;

verus! {

/// What went wrong, independent of the human-readable message.
#[derive(Clone, Copy, Debug, PartialEq, Eq, Structural)]
pub enum ErrorKind {
    /// A database name that the data source does not know.
    UnknownDatabase,
    /// A column reference that the schema or the batch does not hold.
    UnknownColumn,
    /// An operator or function name missing from the function registry.
    UnknownFunction,
    /// An aggregate name missing from the aggregate registry.
    UnknownAggregate,
    /// A type that cannot be derived, such as the type of `*`.
    IllegalDataType,
    /// An internal invariant was broken: a bug, not bad input.
    LogicalError,
    /// A filter predicate did not evaluate to a boolean column.
    TypeMismatch,
    /// A remote node refused or failed a prepare request.
    RemoteDispatchError,
    /// The session manager is at its connection limit.
    TooManyUserConnections,
}

/// An error: its kind and a message for people.
#[derive(Debug)]
pub struct ErrorCode {
    pub kind: ErrorKind,
    pub message: String,
}

impl ErrorCode {
    /// An error of `kind` with `message`.
    pub fn create(kind: ErrorKind, message: &str) -> (e: ErrorCode)
        ensures
            e.kind == kind,
            e.message@ == message@,
    {
        ErrorCode { kind, message: String::from_str(message) }
    }

    /// The kind of this error.
    pub fn kind(&self) -> (k: ErrorKind)
        ensures
            k == self.kind,
    {
        self.kind
    }

    /// The message of this error.
    pub fn message(&self) -> (m: String)
        ensures
            m@ == self.message@,
    {
        self.message.clone()
    }
}

impl Clone for ErrorCode {
    fn clone(&self) -> (e: ErrorCode)
        ensures
            e == *self,
    {
        ErrorCode { kind: self.kind, message: self.message.clone() }
    }
}

} // verus!
