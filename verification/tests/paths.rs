use wll_os::fs::path::{
    apply_root, child_name, file_name, is_descendant, is_memfs_volatile_dir, join_slash,
    local_device_path, normalize_path, parent_path, path_parts, resolve_path,
    resolve_path_with_root, split_slash,
};
use wll_os::text::{decimal_text, str_lt, strip_prefix};

#[test]
fn normal_form_of_a_path() {
    assert_eq!(normalize_path("/a/./b/../c"), "/a/c");
    assert_eq!(normalize_path("/"), "/");
    assert_eq!(normalize_path("//a///b/"), "/a/b");
    assert_eq!(normalize_path("/../../x"), "/x");
    assert_eq!(normalize_path("/a/.."), "/");
}

#[test]
fn normal_form_is_kept() {
    for path in ["/a/./b/../c", "a/b", "", "/", "/..", "x/../../y"] {
        let once = normalize_path(path);
        assert_eq!(normalize_path(&once), once);
    }
}

#[test]
fn paths_are_taken_from_the_working_directory() {
    assert_eq!(resolve_path("/home/u", "x"), "/home/u/x");
    assert_eq!(resolve_path("/home/u", "../v"), "/home/v");
    assert_eq!(resolve_path("/home/u", "/etc"), "/etc");
    assert_eq!(resolve_path("/", "a"), "/a");
}

#[test]
fn no_path_leaves_the_root() {
    assert_eq!(apply_root("/jail", "/etc/passwd"), "/jail/etc/passwd");
    assert_eq!(resolve_path_with_root("/jail", "/a", "../../../etc"), "/jail/etc");
    assert_eq!(resolve_path_with_root("/", "/a", "b"), "/a/b");
}

#[test]
fn parents_and_names() {
    assert_eq!(parent_path("/a/b"), "/a");
    assert_eq!(parent_path("/a"), "/");
    assert_eq!(parent_path("/"), "/");
    assert_eq!(file_name("/a/b"), "b");
    assert_eq!(child_name("/a", "/a/b"), Some("b".to_string()));
    assert_eq!(child_name("/a", "/a/b/c"), None);
    assert_eq!(child_name("/", "/x"), Some("x".to_string()));
    assert_eq!(child_name("/a", "/ab"), None);
}

#[test]
fn descendants() {
    assert!(is_descendant("/a", "/a/b/c"));
    assert!(!is_descendant("/a", "/a"));
    assert!(!is_descendant("/a", "/ab"));
}

#[test]
fn volatile_directories() {
    assert!(is_memfs_volatile_dir("/tmp"));
    assert!(is_memfs_volatile_dir("/tmp/x"));
    assert!(!is_memfs_volatile_dir("/home"));
}

#[test]
fn device_paths_under_a_root() {
    assert_eq!(local_device_path("/dev/null"), "/dev/null");
}

#[test]
fn pieces_of_a_path() {
    assert_eq!(split_slash("/a//b"), vec!["", "a", "", "b"]);
    assert_eq!(path_parts("/a//b/../c"), vec!["a", "c"]);
    assert_eq!(join_slash(&vec!["a".to_string(), "b".to_string()]), "a/b");
}

#[test]
fn texts() {
    assert_eq!(decimal_text(0), "0");
    assert_eq!(decimal_text(10203), "10203");
    assert_eq!(decimal_text(usize::MAX), usize::MAX.to_string());
    assert!(str_lt("a", "b"));
    assert!(str_lt("a", "ab"));
    assert!(!str_lt("b", "ab"));
    assert_eq!(strip_prefix("/dev/loop3", "/dev/loop"), Some("3".to_string()));
    assert_eq!(strip_prefix("/dev", "/dev/loop"), None);
}
