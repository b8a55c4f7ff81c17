use sftp_engine::copy_walk::CopyAction;
use sftp_engine::copy_walk::CopyWalk;
use sftp_engine::errors::FsError;
use sftp_engine::types::RawEntry;

fn file(path: &str, name: &str) -> RawEntry {
    RawEntry {
        name: String::from(name),
        path: String::from(path),
        is_directory: false,
        size: Some(0),
        modified: None,
        mode: None,
    }
}

fn dir(path: &str, name: &str) -> RawEntry {
    RawEntry {
        name: String::from(name),
        path: String::from(path),
        is_directory: true,
        size: None,
        modified: None,
        mode: None,
    }
}

#[test]
fn copies_destination_dir_first_then_files_then_subdirs() {
    let mut w = CopyWalk::new(String::from("/src"), String::from("/dst"));
    match w.next_action().unwrap() {
        CopyAction::Mkdir(d) => assert_eq!(d, "/dst"),
        _ => panic!("expected the destination mkdir first"),
    }
    w.on_mkdir_ok(false);
    match w.next_action().unwrap() {
        CopyAction::List(s) => assert_eq!(s, "/src"),
        _ => panic!("expected the source listing next"),
    }
    w.on_listed(vec![file("/src/f", "f"), dir("/src/sub", "sub")], false);
    match w.next_action().unwrap() {
        CopyAction::CopyFile { src, dst } => {
            assert_eq!(src, "/src/f");
            assert_eq!(dst, "/dst/f");
        }
        _ => panic!("expected the file copy"),
    }
    w.on_file_copied(false);
    match w.next_action().unwrap() {
        CopyAction::Mkdir(d) => assert_eq!(d, "/dst/sub"),
        _ => panic!("expected the subdirectory mkdir"),
    }
    w.on_mkdir_ok(false);
    match w.next_action().unwrap() {
        CopyAction::List(s) => assert_eq!(s, "/src/sub"),
        _ => panic!("expected the subdirectory listing"),
    }
    w.on_listed(Vec::new(), false);
    assert!(w.completed());
}

#[test]
fn empty_source_completes_after_the_mkdir() {
    let mut w = CopyWalk::new(String::from("/s"), String::from("/d"));
    w.on_mkdir_ok(false);
    w.on_listed(Vec::new(), false);
    assert!(w.completed());
}

#[test]
fn pseudo_entries_are_not_copied() {
    let mut w = CopyWalk::new(String::from("/s"), String::from("/d"));
    w.on_mkdir_ok(false);
    w.on_listed(vec![dir("/s/.", "."), dir("/s/..", ".."), file("/s/f", "f")], false);
    match w.next_action().unwrap() {
        CopyAction::CopyFile { src, .. } => assert_eq!(src, "/s/f"),
        _ => panic!("expected the file copy"),
    }
    w.on_file_copied(false);
    assert!(w.completed());
}

#[test]
fn cancellation_is_observed_after_a_child() {
    let mut w = CopyWalk::new(String::from("/s"), String::from("/d"));
    w.on_mkdir_ok(false);
    w.on_listed(vec![file("/s/a", "a"), file("/s/b", "b")], false);
    w.on_file_copied(true);
    assert!(w.cancelled());
    assert!(w.next_action().is_none());
}

#[test]
fn existing_destination_is_an_error() {
    let mut w = CopyWalk::new(String::from("/s"), String::from("/d"));
    // The driver reports that the destination could not be created
    // because it already exists.
    w.on_failed(FsError::RemoteIoFailed { path: String::from("/d") });
    assert!(w.is_done());
    assert!(!w.completed());
    assert!(w.next_action().is_none());
}
