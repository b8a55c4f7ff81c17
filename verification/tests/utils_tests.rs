use sftp_engine::utils::format_permissions;
use sftp_engine::utils::get_parent_path;

#[test]
fn permissions_directory_rwxr_xr_x() {
    assert_eq!(format_permissions(0o40755), "drwxr-xr-x");
}

#[test]
fn permissions_plain_rw_r_r() {
    assert_eq!(format_permissions(0o644), "-rw-r--r--");
}

#[test]
fn permissions_zero_mode() {
    assert_eq!(format_permissions(0), "----------");
}

#[test]
fn permissions_full_directory() {
    assert_eq!(format_permissions(0o40777), "drwxrwxrwx");
}

#[test]
fn permissions_each_bit_is_independent() {
    assert_eq!(format_permissions(0o100), "---x------");
    assert_eq!(format_permissions(0o020), "-----w----");
    assert_eq!(format_permissions(0o004), "-------r--");
}

#[test]
fn parent_of_nested_path() {
    assert_eq!(get_parent_path("/a/b"), "/a");
}

#[test]
fn parent_of_top_level_path() {
    assert_eq!(get_parent_path("/a"), "/");
}

#[test]
fn parent_of_root_is_root() {
    assert_eq!(get_parent_path("/"), "/");
}

#[test]
fn parent_of_bare_name_is_empty() {
    assert_eq!(get_parent_path("a"), "");
}

#[test]
fn parent_ignores_trailing_slash() {
    assert_eq!(get_parent_path("/a/b/"), "/a");
}

#[test]
fn parent_collapses_doubled_slash() {
    assert_eq!(get_parent_path("a//b"), "a");
}

#[test]
fn parent_of_empty_is_root() {
    assert_eq!(get_parent_path(""), "/");
}
