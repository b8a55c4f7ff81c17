//! Plain data carried between the engine, its callers and the event
//! listener.

use crate::errors::FsError;
use vstd::prelude::*;

verus! {

/// What a caller supplies to open a session: host and credentials.
/// Key authentication is preferred; a password is the fallback.
#[derive(Clone, Debug)]
pub struct ConnectionConfig {
    pub host: String,
    pub port: u16,
    pub username: String,
    pub password: Option<String>,
    pub private_key_path: Option<String>,
    pub passphrase: Option<String>,
}

/// The credential the engine chooses from a configuration.
#[derive(Clone, Debug)]
pub enum AuthMethod {
    /// Authenticate with the private key at this path, and an optional
    /// passphrase.
    Key { private_key_path: String, passphrase: Option<String> },
    /// Authenticate with this password.
    Password { password: String },
}

/// Picks the authentication method for a configuration: the private key
/// when one is given, else the password, else no method at all.
pub fn choose_auth_method(config: &ConnectionConfig) -> (r: Result<AuthMethod, FsError>)
    ensures
        match config.private_key_path {
            Some(ref k) => r matches Ok(AuthMethod::Key { private_key_path, passphrase })
                && private_key_path@ == k@ && (match (passphrase, config.passphrase) {
                (Some(p), Some(ref q)) => p@ == q@,
                (None, None) => true,
                _ => false,
            }),
            None => match config.password {
                Some(ref w) => r matches Ok(AuthMethod::Password { password }) && password@ == w@,
                None => r == Err::<AuthMethod, FsError>(FsError::AuthenticationFailed),
            },
        },
{
    match &config.private_key_path {
        Some(k) => Ok(
            AuthMethod::Key {
                private_key_path: k.clone(),
                passphrase: match &config.passphrase {
                    Some(p) => Some(p.clone()),
                    None => None,
                },
            },
        ),
        None => match &config.password {
            Some(w) => Ok(AuthMethod::Password { password: w.clone() }),
            None => Err(FsError::AuthenticationFailed),
        },
    }
}

/// One row of a directory listing as shown to the user.
#[derive(Clone, Debug)]
pub struct FileItem {
    pub name: String,
    pub path: String,
    pub is_directory: bool,
    pub size: u64,
    /// Unix timestamp of the last modification.
    pub modified: u64,
    pub permissions: String,
}

/// Remote storage capacity; the engine reports a fixed placeholder, as no
/// real disk-usage query is performed.
#[derive(Clone, Debug)]
pub struct StorageInfo {
    pub total_space: u64,
    pub used_space: u64,
}

/// One entry as the remote listing reports it, before presentation rules
/// are applied; absent stat fields stay absent here and default to zero in
/// the listing.
#[derive(Clone, Debug)]
pub struct RawEntry {
    pub name: String,
    pub path: String,
    pub is_directory: bool,
    pub size: Option<u64>,
    pub modified: Option<u64>,
    pub mode: Option<u32>,
}

/// Which kind of byte transfer an event belongs to.
#[derive(Clone, Copy, Debug, PartialEq, Eq, Structural)]
pub enum TransferKind {
    Upload,
    Download,
    Copy,
}

/// A published notification about one transfer.
#[derive(Clone, Debug)]
pub enum TransferEvent {
    /// One chunk moved; `transferred` is the running byte counter.
    Progress {
        connection_id: Option<u64>,
        path: String,
        transferred: u64,
        total: u64,
        kind: TransferKind,
        transfer_id: u64,
    },
    /// The transfer observed its cancellation token and stopped.
    Cancelled { transfer_id: u64, kind: TransferKind },
    /// The transfer ran to the end of its source.
    Finished { connection_id: Option<u64>, path: String, kind: TransferKind, transfer_id: u64 },
}

/// A published notification about one directory-size computation.
#[derive(Clone, Debug)]
pub enum SizeEvent {
    /// A batched progress report, emitted every hundredth file.
    Progress { operation_id: u64, current_path: String, current_size: u64, files_processed: u64 },
    /// The walk finished with a total.
    Completed { operation_id: u64, path: String, size: u64 },
    /// The walk aborted with an error.
    Failed { operation_id: u64, path: String, error: FsError },
    /// The walk observed its cancellation token and stopped.
    Cancelled { operation_id: u64, path: String },
}

} // verus!
