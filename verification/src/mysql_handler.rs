//! What the MySQL listener decides without touching a socket: whether it may start, and how a
//! connection is turned away.

use crate::errors::ErrorCode;
use crate::errors::ErrorKind;
use vstd::prelude::*;

verus! {

/// The reason that a client is given when its connection is turned away.
#[derive(Debug, Clone, Copy, PartialEq, Eq, Structural)]
pub enum RejectKind {
    /// The server is at its connection limit.
    TooManyUserConnections,
    /// Anything else.
    InternalError,
}

/// The reason and the message with which a connection is turned away after `error`.
pub fn reject_reason(error: &ErrorCode) -> (r: (RejectKind, String))
    ensures
        r.0 == (if error.kind == ErrorKind::TooManyUserConnections {
            RejectKind::TooManyUserConnections
        } else {
            RejectKind::InternalError
        }),
        r.1@ == error.message@,
{
    let kind = match error.kind() {
        ErrorKind::TooManyUserConnections => RejectKind::TooManyUserConnections,
        _ => RejectKind::InternalError,
    };
    (kind, error.message())
}

/// Whether a listener has been started. A listener starts once.
#[derive(Debug)]
pub struct ListenerState {
    pub started: bool,
}

impl ListenerState {
    /// The state of a listener that has not been started.
    pub fn create() -> (state: ListenerState)
        ensures
            !state.started,
    {
        ListenerState { started: false }
    }

    /// Marks the listener as started. `LogicalError` where it has been started before.
    pub fn start(&mut self) -> (r: Result<(), ErrorCode>)
        ensures
            final(self).started,
            !old(self).started ==> r is Ok,
            old(self).started ==> (r matches Err(e) && e.kind == ErrorKind::LogicalError),
    {
        if self.started {
            Err(ErrorCode::create(ErrorKind::LogicalError, "MySQLHandler already running."))
        } else {
            self.started = true;
            Ok(())
        }
    }
}

} // verus!
