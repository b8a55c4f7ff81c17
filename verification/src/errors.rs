//! The closed error taxonomy of the engine, and the unified terminal
//! outcome shared by every long-running operation kind.

use vstd::prelude::*;

verus! {

/// Why an engine operation failed.
///
/// Remote and local I/O failures carry the path at which they occurred so
/// that callers can branch on the outcome instead of parsing message text.
#[derive(Clone, Debug, PartialEq, Eq)]
pub enum FsError {
    /// A command referenced a connection id that is not registered.
    ConnectionNotFound,
    /// A cancel referenced an operation id that is not registered.
    OperationNotFound,
    /// The session could not be authenticated, or no credential was given.
    AuthenticationFailed,
    /// A filesystem channel could not be opened on the session.
    ProtocolChannelFailed,
    /// A remote read/write/stat/create/open/unlink/mkdir/rmdir/rename failed.
    RemoteIoFailed { path: String },
    /// The operation was cancelled through its token.
    Cancelled,
    /// The operation exceeded its wall-clock budget.
    TimedOut,
    /// A local file could not be opened, created, read or written.
    LocalIoFailed { path: String },
}

impl FsError {
    /// An equal copy of the error, for carrying one failure both in a
    /// terminal outcome and in a published event.
    pub fn duplicate(&self) -> (r: FsError)
        ensures
            r == *self,
    {
        match self {
            FsError::ConnectionNotFound => FsError::ConnectionNotFound,
            FsError::OperationNotFound => FsError::OperationNotFound,
            FsError::AuthenticationFailed => FsError::AuthenticationFailed,
            FsError::ProtocolChannelFailed => FsError::ProtocolChannelFailed,
            FsError::RemoteIoFailed { path } => FsError::RemoteIoFailed { path: path.clone() },
            FsError::Cancelled => FsError::Cancelled,
            FsError::TimedOut => FsError::TimedOut,
            FsError::LocalIoFailed { path } => FsError::LocalIoFailed { path: path.clone() },
        }
    }
}

/// The terminal state of a long-running operation: one of exactly three
/// outcomes, applied identically to transfers, sizing walks and copies.
#[derive(Clone, Debug, PartialEq, Eq)]
pub enum Outcome {
    Completed,
    Cancelled,
    Failed(FsError),
}

impl Outcome {
    /// True on the one successful outcome.
    pub fn is_completed(&self) -> (r: bool)
        ensures
            r == (*self == Outcome::Completed),
    {
        match self {
            Outcome::Completed => true,
            _ => false,
        }
    }
}

} // verus!
