//! The engine's command surface: one explicit context object holding the
//! connection registry and the two operation registries — one for byte
//! transfers, one for directory-size computations.
//!
//! A command that references an unknown connection id fails with
//! connection-not-found and changes nothing.  Long-running operations are
//! registered here when they start and must be released here on every
//! exit path — completion, failure, cancellation or timeout alike.

use crate::errors::FsError;
use crate::registry::ConnectionRegistry;
use crate::registry::OperationRegistry;
use crate::types::StorageInfo;
use vstd::prelude::*;

verus! {

/// The placeholder storage report: no real disk-usage query is wired to
/// the remote side.
pub const PLACEHOLDER_TOTAL_SPACE: u64 = 1000000;

/// The placeholder used-space report.
pub const PLACEHOLDER_USED_SPACE: u64 = 500000;

/// The explicit state behind every command: registered sessions and the
/// in-flight cancellable operations of both kinds.
pub struct SftpEngine {
    connections: ConnectionRegistry,
    transfers: OperationRegistry,
    size_ops: OperationRegistry,
}

impl SftpEngine {
    /// The registered connections and their session handles.
    pub closed spec fn sessions(self) -> Map<u64, u64> {
        self.connections.sessions()
    }

    /// The in-flight transfers and their cancellation tokens.
    pub closed spec fn transfer_tokens(self) -> Map<u64, bool> {
        self.transfers.tokens()
    }

    /// The in-flight transfer ids, oldest first.
    pub closed spec fn transfer_ids(self) -> Seq<u64> {
        self.transfers.ids()
    }

    /// The in-flight size computations and their cancellation tokens.
    pub closed spec fn size_tokens(self) -> Map<u64, bool> {
        self.size_ops.tokens()
    }

    /// All three registries are internally consistent.
    pub closed spec fn wf(self) -> bool {
        &&& self.connections.wf()
        &&& self.transfers.wf()
        &&& self.size_ops.wf()
    }

    /// Identifier headroom: more connection ids can be issued.
    pub closed spec fn can_register(self) -> bool {
        self.connections.issued() < u64::MAX
    }

    /// Identifier headroom: more transfer ids can be issued.
    pub closed spec fn can_start_transfer(self) -> bool {
        self.transfers.issued() < u64::MAX
    }

    /// Identifier headroom: more size-computation ids can be issued.
    pub closed spec fn can_start_size(self) -> bool {
        self.size_ops.issued() < u64::MAX
    }

    /// An engine with nothing registered.
    pub fn new() -> (r: Self)
        ensures
            r.wf(),
            r.sessions() == Map::<u64, u64>::empty(),
            r.transfer_tokens() == Map::<u64, bool>::empty(),
            r.size_tokens() == Map::<u64, bool>::empty(),
            r.can_register(),
            r.can_start_transfer(),
            r.can_start_size(),
    {
        SftpEngine {
            connections: ConnectionRegistry::new(),
            transfers: OperationRegistry::new(),
            size_ops: OperationRegistry::new(),
        }
    }

    /// Registers an authenticated session handle and hands out its fresh
    /// connection id.
    pub fn register_session(&mut self, session: u64) -> (id: u64)
        requires
            old(self).wf(),
            old(self).can_register(),
        ensures
            final(self).wf(),
            !old(self).sessions().contains_key(id),
            final(self).sessions() == old(self).sessions().insert(id, session),
            final(self).transfer_tokens() == old(self).transfer_tokens(),
            final(self).size_tokens() == old(self).size_tokens(),
    {
        self.connections.register(session)
    }

    /// Removes a connection, handing back its session handle so the
    /// caller can close the underlying session.  An unknown id removes
    /// nothing and yields no handle.
    pub fn disconnect(&mut self, connection_id: u64) -> (r: Option<u64>)
        requires
            old(self).wf(),
        ensures
            final(self).wf(),
            final(self).sessions() == old(self).sessions().remove(connection_id),
            final(self).transfer_tokens() == old(self).transfer_tokens(),
            final(self).size_tokens() == old(self).size_tokens(),
            old(self).sessions().contains_key(connection_id) ==> r == Some(
                old(self).sessions()[connection_id],
            ),
            !old(self).sessions().contains_key(connection_id) ==> {
                &&& r == None::<u64>
                &&& *final(self) == *old(self)
            },
    {
        self.connections.remove(connection_id)
    }

    /// Looks up the session handle behind a connection id; an unknown id
    /// is the connection-not-found error.
    pub fn get_session(&self, connection_id: u64) -> (r: Result<u64, FsError>)
        requires
            self.wf(),
        ensures
            self.sessions().contains_key(connection_id) ==> r == Ok::<u64, FsError>(
                self.sessions()[connection_id],
            ),
            !self.sessions().contains_key(connection_id) ==> r == Err::<u64, FsError>(
                FsError::ConnectionNotFound,
            ),
    {
        self.connections.get(connection_id)
    }

    /// Starts a transfer on a connection: a fresh transfer id with an
    /// unset token is registered, and the session handle is returned
    /// with it.  An unknown connection id changes nothing.
    pub fn start_transfer(&mut self, connection_id: u64) -> (r: Result<(u64, u64), FsError>)
        requires
            old(self).wf(),
            old(self).can_start_transfer(),
        ensures
            final(self).wf(),
            final(self).sessions() == old(self).sessions(),
            final(self).size_tokens() == old(self).size_tokens(),
            old(self).sessions().contains_key(connection_id) ==> (r matches Ok((tid, session)) && {
                &&& session == old(self).sessions()[connection_id]
                &&& !old(self).transfer_tokens().contains_key(tid)
                &&& final(self).transfer_tokens() == old(self).transfer_tokens().insert(tid, false)
                &&& final(self).transfer_ids() == old(self).transfer_ids().push(tid)
            }),
            !old(self).sessions().contains_key(connection_id) ==> {
                &&& r == Err::<(u64, u64), FsError>(FsError::ConnectionNotFound)
                &&& *final(self) == *old(self)
            },
    {
        let session = match self.connections.get(connection_id) {
            Ok(s) => s,
            Err(e) => {
                return Err(e);
            },
        };
        let tid = self.transfers.begin();
        Ok((tid, session))
    }

    /// Requests cancellation of an in-flight transfer: its token is set
    /// and stays set.  An unknown or already finished transfer id is the
    /// operation-not-found error.
    pub fn cancel_transfer(&mut self, transfer_id: u64) -> (r: Result<(), FsError>)
        requires
            old(self).wf(),
        ensures
            final(self).wf(),
            final(self).sessions() == old(self).sessions(),
            final(self).size_tokens() == old(self).size_tokens(),
            final(self).transfer_ids() == old(self).transfer_ids(),
            old(self).transfer_tokens().contains_key(transfer_id) ==> {
                &&& r == Ok::<(), FsError>(())
                &&& final(self).transfer_tokens() == old(self).transfer_tokens().insert(
                    transfer_id,
                    true,
                )
            },
            !old(self).transfer_tokens().contains_key(transfer_id) ==> {
                &&& r == Err::<(), FsError>(FsError::OperationNotFound)
                &&& *final(self) == *old(self)
            },
    {
        self.transfers.cancel(transfer_id)
    }

    /// The token of an in-flight transfer, as the driving task observes
    /// it at a chunk boundary; a released id reads as not cancelled.
    pub fn transfer_cancel_requested(&self, transfer_id: u64) -> (r: bool)
        requires
            self.wf(),
        ensures
            r == (self.transfer_tokens().contains_key(transfer_id)
                && self.transfer_tokens()[transfer_id]),
    {
        self.transfers.is_cancelled(transfer_id)
    }

    /// Releases a transfer's registry entry; owed on every exit path —
    /// completion, failure or cancellation.  The id stops being
    /// cancellable and leaves the active list.
    pub fn finish_transfer(&mut self, transfer_id: u64)
        requires
            old(self).wf(),
        ensures
            final(self).wf(),
            final(self).sessions() == old(self).sessions(),
            final(self).size_tokens() == old(self).size_tokens(),
            final(self).transfer_tokens() == old(self).transfer_tokens().remove(transfer_id),
            !final(self).transfer_tokens().contains_key(transfer_id),
    {
        self.transfers.end(transfer_id)
    }

    /// The ids of every transfer still in flight, oldest first.
    pub fn get_active_transfers(&self) -> (r: Vec<u64>)
        ensures
            r@ == self.transfer_ids(),
    {
        self.transfers.list_active()
    }

    /// Starts a directory-size computation on a connection: a fresh
    /// operation id with an unset token is registered, and the session
    /// handle is returned with it.  An unknown connection id changes
    /// nothing.
    pub fn start_directory_size(&mut self, connection_id: u64) -> (r: Result<(u64, u64), FsError>)
        requires
            old(self).wf(),
            old(self).can_start_size(),
        ensures
            final(self).wf(),
            final(self).sessions() == old(self).sessions(),
            final(self).transfer_tokens() == old(self).transfer_tokens(),
            old(self).sessions().contains_key(connection_id) ==> (r matches Ok((oid, session)) && {
                &&& session == old(self).sessions()[connection_id]
                &&& !old(self).size_tokens().contains_key(oid)
                &&& final(self).size_tokens() == old(self).size_tokens().insert(oid, false)
            }),
            !old(self).sessions().contains_key(connection_id) ==> {
                &&& r == Err::<(u64, u64), FsError>(FsError::ConnectionNotFound)
                &&& *final(self) == *old(self)
            },
    {
        let session = match self.connections.get(connection_id) {
            Ok(s) => s,
            Err(e) => {
                return Err(e);
            },
        };
        let oid = self.size_ops.begin();
        Ok((oid, session))
    }

    /// Requests cancellation of an in-flight size computation.  An
    /// unknown or already finished operation id is the
    /// operation-not-found error.
    pub fn cancel_directory_size(&mut self, operation_id: u64) -> (r: Result<(), FsError>)
        requires
            old(self).wf(),
        ensures
            final(self).wf(),
            final(self).sessions() == old(self).sessions(),
            final(self).transfer_tokens() == old(self).transfer_tokens(),
            old(self).size_tokens().contains_key(operation_id) ==> {
                &&& r == Ok::<(), FsError>(())
                &&& final(self).size_tokens() == old(self).size_tokens().insert(operation_id, true)
            },
            !old(self).size_tokens().contains_key(operation_id) ==> {
                &&& r == Err::<(), FsError>(FsError::OperationNotFound)
                &&& *final(self) == *old(self)
            },
    {
        self.size_ops.cancel(operation_id)
    }

    /// The token of an in-flight size computation, as the walking task
    /// observes it at a directory boundary.
    pub fn size_cancel_requested(&self, operation_id: u64) -> (r: bool)
        requires
            self.wf(),
        ensures
            r == (self.size_tokens().contains_key(operation_id)
                && self.size_tokens()[operation_id]),
    {
        self.size_ops.is_cancelled(operation_id)
    }

    /// Releases a size computation's registry entry; owed on every exit
    /// path — completion, failure, cancellation or timeout.  A later
    /// cancel of the same id reports it unknown.
    pub fn finish_directory_size(&mut self, operation_id: u64)
        requires
            old(self).wf(),
        ensures
            final(self).wf(),
            final(self).sessions() == old(self).sessions(),
            final(self).transfer_tokens() == old(self).transfer_tokens(),
            final(self).size_tokens() == old(self).size_tokens().remove(operation_id),
            !final(self).size_tokens().contains_key(operation_id),
    {
        self.size_ops.end(operation_id)
    }

    /// Reports storage capacity for a connection: the fixed placeholder
    /// values, since no real disk-usage query is performed.  An unknown
    /// connection id is the connection-not-found error.
    pub fn fetch_storage_info(&self, connection_id: u64) -> (r: Result<StorageInfo, FsError>)
        requires
            self.wf(),
        ensures
            self.sessions().contains_key(connection_id) ==> (r matches Ok(info)
                && info.total_space == PLACEHOLDER_TOTAL_SPACE && info.used_space
                == PLACEHOLDER_USED_SPACE),
            !self.sessions().contains_key(connection_id) ==> r == Err::<StorageInfo, FsError>(
                FsError::ConnectionNotFound,
            ),
    {
        match self.connections.get(connection_id) {
            Ok(_) => Ok(
                StorageInfo {
                    total_space: PLACEHOLDER_TOTAL_SPACE,
                    used_space: PLACEHOLDER_USED_SPACE,
                },
            ),
            Err(e) => Err(e),
        }
    }
}

} // verus!
