use buckal::paths::is_safe_subpath;

#[test]
fn test_safe_relative_paths() {
    assert!(is_safe_subpath("file.txt"));
    assert!(is_safe_subpath("subdir/file.txt"));
    assert!(is_safe_subpath("nested/deep/file.txt"));
    assert!(is_safe_subpath("a/b/c/d/e.txt"));
}

#[test]
fn test_path_with_dot_components() {
    // Current directory references should be normalized away
    assert!(is_safe_subpath("./file.txt"));
    assert!(is_safe_subpath("subdir/./file.txt"));
    assert!(is_safe_subpath("./subdir/./file.txt"));
}

#[test]
fn test_single_dot_dot_escape() {
    // Single .. that tries to escape should be rejected
    assert!(!is_safe_subpath("../file.txt"));
    assert!(!is_safe_subpath("subdir/../../file.txt"));
}

#[test]
fn test_multiple_dot_dot_escape() {
    // Multiple .. levels
    assert!(!is_safe_subpath("../../file.txt"));
    assert!(!is_safe_subpath("../../../etc/passwd"));
    assert!(!is_safe_subpath("a/b/c/../../../../file.txt"));
}

#[test]
fn test_absolute_paths_unix() {
    // Unix absolute paths should be rejected
    assert!(!is_safe_subpath("/etc/passwd"));
    assert!(!is_safe_subpath("/tmp/file.txt"));
    assert!(!is_safe_subpath("/"));
}

#[test]
fn test_absolute_paths_windows() {
    // Windows absolute paths should be rejected
    assert!(!is_safe_subpath("\\Windows\\System32"));
    assert!(!is_safe_subpath("\\file.txt"));
}

#[test]
fn test_windows_drive_letters() {
    // Windows drive letters should be rejected
    assert!(!is_safe_subpath("C:\\Windows\\System32"));
    assert!(!is_safe_subpath("D:\\file.txt"));
    assert!(!is_safe_subpath("file:txt"));
}

#[test]
fn test_unc_paths() {
    // UNC paths with colons should be rejected
    assert!(!is_safe_subpath("\\\\server\\share\\file.txt"));
    assert!(!is_safe_subpath("./\\\\server:\\share"));
}

#[test]
fn test_safe_subdir_traversal() {
    // Safe traversal within subdirectories
    assert!(is_safe_subpath("subdir/file.txt"));
    assert!(is_safe_subpath("a/b/c/file.txt"));
    assert!(is_safe_subpath("deep/nested/path/file.txt"));
}

#[test]
fn test_safe_with_mixed_separators() {
    // Mixed separators but still safe
    assert!(is_safe_subpath("subdir/file.txt"));
    assert!(is_safe_subpath("a\\b\\c\\file.txt"));
    assert!(is_safe_subpath("mixed/path\\file.txt"));
}

#[test]
fn test_empty_and_dot_components() {
    // Empty path components and dots
    assert!(is_safe_subpath("."));
    assert!(is_safe_subpath("a/./b"));
    assert!(is_safe_subpath("a//b"));
}

#[test]
fn test_complex_escape_attempts() {
    // Complex attempts to escape
    assert!(!is_safe_subpath("file/../../../../../../../etc/passwd"));
    assert!(!is_safe_subpath("./a/../b/../../file.txt"));
    assert!(!is_safe_subpath("legitimate/../../.."));
}

#[test]
fn test_dot_dot_at_boundary() {
    // .. exactly at the boundary
    assert!(!is_safe_subpath(".."));
    assert!(!is_safe_subpath("a/b/c/../../../../"));
}

#[test]
fn test_hidden_files() {
    // Hidden files (starting with .) should be safe if no escape
    assert!(is_safe_subpath(".hidden"));
    assert!(is_safe_subpath("dir/.hidden"));
    assert!(is_safe_subpath(".config/file.txt"));
}
