use repo_manager::path::{
    has_prefix, is_within_root, join_path, sanitize_relative, strip_parent_prefix,
};

#[test]
fn join_inserts_one_separator() {
    assert_eq!(join_path("/data/repo", "a/b.txt"), "/data/repo/a/b.txt");
    assert_eq!(join_path("/data/repo/", "a"), "/data/repo/a");
    assert_eq!(join_path("", "a"), "a");
}

#[test]
fn join_with_absolute_path_replaces_base() {
    assert_eq!(join_path("/data/repo", "/etc/passwd"), "/etc/passwd");
}

#[test]
fn prefix_checks() {
    assert!(has_prefix("/data/repo/x", "/data/repo"));
    assert!(has_prefix("abc", ""));
    assert!(!has_prefix("/data", "/data/repo"));
    assert!(!has_prefix("/data/rep0", "/data/repo"));
}

#[test]
fn within_root_is_component_wise() {
    assert!(is_within_root("/data/repo", "/data/repo"));
    assert!(is_within_root("/data/repo/file", "/data/repo"));
    assert!(!is_within_root("/data/repo2/file", "/data/repo"));
    assert!(!is_within_root("/etc/passwd", "/data/repo"));
    assert!(is_within_root("/anything", "/"));
    assert!(!is_within_root("/x", ""));
}

#[test]
fn strips_one_leading_parent() {
    assert_eq!(strip_parent_prefix("../a"), "a");
    assert_eq!(strip_parent_prefix("../../a"), "../a");
    assert_eq!(strip_parent_prefix(".."), "");
    assert_eq!(strip_parent_prefix("..a"), "..a");
    assert_eq!(strip_parent_prefix("a/../b"), "a/../b");
}

#[test]
fn sanitize_normalises_then_strips() {
    assert_eq!(sanitize_relative("a/./b//c"), "a/b/c");
    assert_eq!(sanitize_relative("a/../../b"), "b");
    assert_eq!(sanitize_relative("../../etc/passwd"), "../etc/passwd");
    assert_eq!(sanitize_relative("docs/readme.md"), "docs/readme.md");
}
