use sftp_engine::delete_walk::DeleteAction;
use sftp_engine::delete_walk::DeleteWalk;
use sftp_engine::errors::FsError;
use sftp_engine::types::RawEntry;

fn file(path: &str, name: &str) -> RawEntry {
    RawEntry {
        name: String::from(name),
        path: String::from(path),
        is_directory: false,
        size: Some(0),
        modified: None,
        mode: None,
    }
}

fn dir(path: &str, name: &str) -> RawEntry {
    RawEntry {
        name: String::from(name),
        path: String::from(path),
        is_directory: true,
        size: None,
        modified: None,
        mode: None,
    }
}

#[test]
fn deletes_file_before_inner_dir_before_outer_dir() {
    // /d1 holds /d1/d2, which holds the file /d1/d2/f.
    let mut w = DeleteWalk::new(String::from("/d1"));
    match w.next_action().unwrap() {
        DeleteAction::List(p) => assert_eq!(p, "/d1"),
        other => panic!("expected a listing request, got {:?}", action_name(&other)),
    }
    w.on_listed(vec![dir("/d1/d2", "d2")]).unwrap();
    match w.next_action().unwrap() {
        DeleteAction::List(p) => assert_eq!(p, "/d1/d2"),
        other => panic!("expected a listing request, got {:?}", action_name(&other)),
    }
    w.on_listed(vec![file("/d1/d2/f", "f")]).unwrap();
    let mut order: Vec<String> = Vec::new();
    loop {
        match w.next_action() {
            None => break,
            Some(DeleteAction::Unlink(p)) => {
                order.push(p);
                w.on_removed();
            }
            Some(DeleteAction::Rmdir(p)) => {
                order.push(p);
                w.on_removed();
            }
            Some(DeleteAction::List(p)) => panic!("unexpected listing request for {}", p),
        }
    }
    assert!(w.completed());
    assert_eq!(order, vec!["/d1/d2/f", "/d1/d2", "/d1"]);
}

#[test]
fn failure_stops_the_walk_before_any_ancestor_is_removed() {
    let mut w = DeleteWalk::new(String::from("/d1"));
    w.on_listed(vec![dir("/d1/d2", "d2")]).unwrap();
    w.on_listed(vec![file("/d1/d2/f", "f")]).unwrap();
    // The unlink of /d1/d2/f fails remotely.
    assert!(matches!(w.next_action(), Some(DeleteAction::Unlink(_))));
    w.on_failed(FsError::RemoteIoFailed { path: String::from("/d1/d2/f") });
    assert!(w.is_done());
    assert!(!w.completed());
    // The walk asks for nothing further: no rmdir of /d1/d2 or /d1 was
    // or will be requested.
    assert!(w.next_action().is_none());
}

#[test]
fn empty_directory_is_removed_directly() {
    let mut w = DeleteWalk::new(String::from("/e"));
    w.on_listed(Vec::new()).unwrap();
    match w.next_action().unwrap() {
        DeleteAction::Rmdir(p) => assert_eq!(p, "/e"),
        other => panic!("expected a rmdir request, got {:?}", action_name(&other)),
    }
    w.on_removed();
    assert!(w.completed());
}

#[test]
fn pseudo_entries_are_not_deleted() {
    let mut w = DeleteWalk::new(String::from("/e"));
    w.on_listed(vec![dir("/e/.", "."), dir("/e/..", "..")]).unwrap();
    // Nothing but the directory itself is removed.
    match w.next_action().unwrap() {
        DeleteAction::Rmdir(p) => assert_eq!(p, "/e"),
        other => panic!("expected a rmdir request, got {:?}", action_name(&other)),
    }
}

#[test]
fn repeated_path_in_listings_is_a_remote_failure() {
    // The remote side reports /a as containing itself.
    let mut w = DeleteWalk::new(String::from("/a"));
    w.on_listed(vec![dir("/a", "a")]).unwrap();
    let r = w.on_listed(vec![file("/a/f", "f")]);
    assert!(matches!(r, Err(FsError::RemoteIoFailed { .. })));
    assert!(w.is_done());
    assert!(!w.completed());
}

fn action_name(a: &DeleteAction) -> &'static str {
    match a {
        DeleteAction::List(_) => "list",
        DeleteAction::Unlink(_) => "unlink",
        DeleteAction::Rmdir(_) => "rmdir",
    }
}
