use sftp_engine::engine::SftpEngine;
use sftp_engine::errors::FsError;

#[test]
fn unknown_connection_is_reported_by_every_command() {
    let mut engine = SftpEngine::new();
    assert_eq!(engine.get_session(5), Err(FsError::ConnectionNotFound));
    assert_eq!(engine.start_transfer(5), Err(FsError::ConnectionNotFound));
    assert_eq!(engine.start_directory_size(5), Err(FsError::ConnectionNotFound));
    assert!(matches!(engine.fetch_storage_info(5), Err(FsError::ConnectionNotFound)));
    // Nothing was registered as a side effect.
    assert!(engine.get_active_transfers().is_empty());
}

#[test]
fn register_get_and_disconnect() {
    let mut engine = SftpEngine::new();
    let id = engine.register_session(70);
    assert_eq!(engine.get_session(id), Ok(70));
    assert_eq!(engine.disconnect(id), Some(70));
    assert_eq!(engine.get_session(id), Err(FsError::ConnectionNotFound));
    assert_eq!(engine.disconnect(id), None);
}

#[test]
fn transfer_lifecycle_and_cancellation() {
    let mut engine = SftpEngine::new();
    let conn = engine.register_session(9);
    let (tid, session) = engine.start_transfer(conn).unwrap();
    assert_eq!(session, 9);
    assert_eq!(engine.get_active_transfers(), vec![tid]);
    assert!(!engine.transfer_cancel_requested(tid));
    assert_eq!(engine.cancel_transfer(tid), Ok(()));
    assert!(engine.transfer_cancel_requested(tid));
    // The token is monotonic: cancelling again keeps it set.
    assert_eq!(engine.cancel_transfer(tid), Ok(()));
    assert!(engine.transfer_cancel_requested(tid));
    engine.finish_transfer(tid);
    assert!(engine.get_active_transfers().is_empty());
    // A released id is no longer cancellable.
    assert_eq!(engine.cancel_transfer(tid), Err(FsError::OperationNotFound));
}

#[test]
fn transfer_ids_are_fresh() {
    let mut engine = SftpEngine::new();
    let conn = engine.register_session(1);
    let (t1, _) = engine.start_transfer(conn).unwrap();
    let (t2, _) = engine.start_transfer(conn).unwrap();
    assert_ne!(t1, t2);
    assert_eq!(engine.get_active_transfers(), vec![t1, t2]);
}

#[test]
fn size_operation_lifecycle() {
    let mut engine = SftpEngine::new();
    let conn = engine.register_session(3);
    let (oid, session) = engine.start_directory_size(conn).unwrap();
    assert_eq!(session, 3);
    assert!(!engine.size_cancel_requested(oid));
    assert_eq!(engine.cancel_directory_size(oid), Ok(()));
    assert!(engine.size_cancel_requested(oid));
    engine.finish_directory_size(oid);
    assert_eq!(engine.cancel_directory_size(oid), Err(FsError::OperationNotFound));
}

#[test]
fn cancel_of_unknown_operation_ids() {
    let mut engine = SftpEngine::new();
    assert_eq!(engine.cancel_transfer(42), Err(FsError::OperationNotFound));
    assert_eq!(engine.cancel_directory_size(42), Err(FsError::OperationNotFound));
}

#[test]
fn storage_info_placeholder_values() {
    let mut engine = SftpEngine::new();
    let conn = engine.register_session(8);
    let info = engine.fetch_storage_info(conn).unwrap();
    assert_eq!(info.total_space, 1000000);
    assert_eq!(info.used_space, 500000);
}
