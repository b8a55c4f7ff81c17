use sftp_engine::listing::list_directory;
use sftp_engine::types::RawEntry;

fn entry(name: &str, is_directory: bool) -> RawEntry {
    RawEntry {
        name: String::from(name),
        path: format!("/d/{}", name),
        is_directory,
        size: Some(1),
        modified: Some(2),
        mode: Some(0o644),
    }
}

fn names(items: &[sftp_engine::types::FileItem]) -> Vec<String> {
    items.iter().map(|it| it.name.clone()).collect()
}

#[test]
fn parent_then_directories_then_files_and_hidden_dropped() {
    let items = list_directory(vec![
        entry("b.txt", false),
        entry("A", true),
        entry(".hidden", false),
        entry("..", true),
    ]);
    assert_eq!(names(&items), vec!["..", "A", "b.txt"]);
}

#[test]
fn file_names_compare_case_insensitively() {
    let items = list_directory(vec![
        entry("banana.txt", false),
        entry("Apple.txt", false),
        entry("cherry.txt", false),
    ]);
    assert_eq!(names(&items), vec!["Apple.txt", "banana.txt", "cherry.txt"]);
}

#[test]
fn directories_sort_before_files_of_earlier_names() {
    let items = list_directory(vec![entry("aaa.txt", false), entry("zzz", true)]);
    assert_eq!(names(&items), vec!["zzz", "aaa.txt"]);
}

#[test]
fn rows_carry_defaults_and_rendered_permissions() {
    let mut e = entry("f", false);
    e.size = None;
    e.modified = None;
    e.mode = None;
    let items = list_directory(vec![e]);
    assert_eq!(items.len(), 1);
    assert_eq!(items[0].name, "f");
    assert_eq!(items[0].path, "/d/f");
    assert!(!items[0].is_directory);
    assert_eq!(items[0].size, 0);
    assert_eq!(items[0].modified, 0);
    assert_eq!(items[0].permissions, "----------");
}

#[test]
fn rows_carry_stat_fields_and_mode() {
    let items = list_directory(vec![entry("g", true)]);
    assert_eq!(items[0].size, 1);
    assert_eq!(items[0].modified, 2);
    assert_eq!(items[0].permissions, "-rw-r--r--");
}

#[test]
fn hidden_names_other_than_parent_are_excluded() {
    let items = list_directory(vec![entry(".a", false), entry(".b", true), entry("c", false)]);
    assert_eq!(names(&items), vec!["c"]);
}
