//! Verified core of a remote-file-management engine.
//!
//! The crate models the concurrency-free heart of an SFTP-style client:
//! connection and operation registries with cooperative cancellation,
//! a chunked-transfer state machine, work-list walkers for recursive
//! delete / size / copy, and directory-listing presentation rules.
//! All network and file I/O lives outside the library; callers drive the
//! state machines with the results of their remote calls.

pub mod copy_walk;
pub mod delete_walk;
pub mod engine;
pub mod errors;
pub mod listing;
pub mod registry;
pub mod size_walk;
pub mod transfer;
pub mod types;
pub mod utils;
