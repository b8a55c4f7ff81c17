use sftp_engine::engine::SftpEngine;
use sftp_engine::errors::FsError;
use sftp_engine::size_walk::SizeWalk;
use sftp_engine::types::RawEntry;
use sftp_engine::types::SizeEvent;

fn file(path: &str, name: &str, size: u64) -> RawEntry {
    RawEntry {
        name: String::from(name),
        path: String::from(path),
        is_directory: false,
        size: Some(size),
        modified: None,
        mode: None,
    }
}

fn dir(path: &str, name: &str) -> RawEntry {
    RawEntry {
        name: String::from(name),
        path: String::from(path),
        is_directory: true,
        size: None,
        modified: None,
        mode: None,
    }
}

#[test]
fn empty_directory_yields_zero() {
    let mut w = SizeWalk::new(1, String::from("/d"));
    assert_eq!(w.current_dir().as_deref(), Some("/d"));
    let evs = w.on_listing(Vec::new());
    assert!(w.is_done());
    match &evs[evs.len() - 1] {
        SizeEvent::Completed { operation_id, path, size } => {
            assert_eq!(*operation_id, 1);
            assert_eq!(path, "/d");
            assert_eq!(*size, 0);
        }
        other => panic!("expected completion, got {:?}", other),
    }
}

#[test]
fn nested_tree_sums_all_file_sizes() {
    // /d holds a 10-byte file and /d/s; /d/s holds a 20-byte file and
    // /d/s/t; /d/s/t holds a 30-byte file.
    let mut w = SizeWalk::new(2, String::from("/d"));
    assert_eq!(w.current_dir().as_deref(), Some("/d"));
    w.on_listing(vec![file("/d/a", "a", 10), dir("/d/s", "s")]);
    assert_eq!(w.current_dir().as_deref(), Some("/d/s"));
    w.on_listing(vec![file("/d/s/b", "b", 20), dir("/d/s/t", "t")]);
    assert_eq!(w.current_dir().as_deref(), Some("/d/s/t"));
    let evs = w.on_listing(vec![file("/d/s/t/c", "c", 30)]);
    assert!(w.is_done());
    match &evs[evs.len() - 1] {
        SizeEvent::Completed { path, size, .. } => {
            assert_eq!(path, "/d");
            assert_eq!(*size, 60);
        }
        other => panic!("expected completion, got {:?}", other),
    }
}

#[test]
fn accumulation_clamps_instead_of_wrapping() {
    let mut w = SizeWalk::new(3, String::from("/d"));
    let evs = w.on_listing(vec![file("/d/a", "a", u64::MAX), file("/d/b", "b", 100)]);
    match &evs[evs.len() - 1] {
        SizeEvent::Completed { size, .. } => assert_eq!(*size, u64::MAX),
        other => panic!("expected completion, got {:?}", other),
    }
}

#[test]
fn pseudo_entries_are_skipped() {
    let mut w = SizeWalk::new(4, String::from("/d"));
    let evs = w.on_listing(vec![dir("/d/.", "."), dir("/d/..", ".."), file("/d/a", "a", 5)]);
    match &evs[evs.len() - 1] {
        SizeEvent::Completed { size, .. } => assert_eq!(*size, 5),
        other => panic!("expected completion, got {:?}", other),
    }
}

#[test]
fn missing_sizes_count_as_zero() {
    let mut w = SizeWalk::new(5, String::from("/d"));
    let mut no_size = file("/d/a", "a", 0);
    no_size.size = None;
    let evs = w.on_listing(vec![no_size, file("/d/b", "b", 7)]);
    match &evs[evs.len() - 1] {
        SizeEvent::Completed { size, .. } => assert_eq!(*size, 7),
        other => panic!("expected completion, got {:?}", other),
    }
}

#[test]
fn progress_every_hundredth_file() {
    let mut w = SizeWalk::new(6, String::from("/d"));
    let mut entries = Vec::new();
    for i in 0..150 {
        entries.push(file(&format!("/d/f{}", i), &format!("f{}", i), 1));
    }
    let evs = w.on_listing(entries);
    let progress: Vec<&SizeEvent> = evs
        .iter()
        .filter(|e| matches!(e, SizeEvent::Progress { .. }))
        .collect();
    assert_eq!(progress.len(), 1);
    match progress[0] {
        SizeEvent::Progress { files_processed, current_size, .. } => {
            assert_eq!(*files_processed, 100);
            assert_eq!(*current_size, 100);
        }
        other => panic!("expected progress, got {:?}", other),
    }
}

#[test]
fn cancellation_names_the_directory_in_hand() {
    let mut w = SizeWalk::new(7, String::from("/d"));
    w.on_listing(vec![dir("/d/s", "s")]);
    assert_eq!(w.current_dir().as_deref(), Some("/d/s"));
    let evs = w.on_cancelled();
    assert_eq!(evs.len(), 1);
    match &evs[0] {
        SizeEvent::Cancelled { operation_id, path } => {
            assert_eq!(*operation_id, 7);
            assert_eq!(path, "/d/s");
        }
        other => panic!("expected cancellation, got {:?}", other),
    }
    assert!(w.is_done());
}

#[test]
fn cancelled_operation_is_gone_from_its_registry_afterwards() {
    let mut engine = SftpEngine::new();
    let conn = engine.register_session(11);
    let (oid, _session) = engine.start_directory_size(conn).unwrap();
    let mut w = SizeWalk::new(oid, String::from("/d"));
    assert_eq!(engine.cancel_directory_size(oid), Ok(()));
    assert!(engine.size_cancel_requested(oid));
    let evs = w.on_cancelled();
    assert!(matches!(evs[0], SizeEvent::Cancelled { .. }));
    // Every exit path releases the registry entry.
    engine.finish_directory_size(oid);
    // A second cancel of the same id reports it unknown.
    assert_eq!(engine.cancel_directory_size(oid), Err(FsError::OperationNotFound));
}

#[test]
fn listing_failure_ends_the_walk_with_that_error() {
    let mut w = SizeWalk::new(8, String::from("/d"));
    let evs = w.on_error(FsError::TimedOut);
    match &evs[0] {
        SizeEvent::Failed { operation_id, path, error } => {
            assert_eq!(*operation_id, 8);
            assert_eq!(path, "/d");
            assert_eq!(*error, FsError::TimedOut);
        }
        other => panic!("expected failure, got {:?}", other),
    }
    assert!(w.is_done());
}
