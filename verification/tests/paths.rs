use orchestrator::path::{join_path, sandbox_candidate, sanitize_path, to_relative};
use orchestrator::error::ErrorKind;

#[test]
fn join_puts_one_separator() {
    assert_eq!(join_path("/repo", "data"), "/repo/data");
    assert_eq!(join_path("/repo/", "data"), "/repo/data");
    assert_eq!(join_path("", "data"), "data");
    assert_eq!(join_path("/repo", "/etc"), "/etc");
}

#[test]
fn candidate_is_taken_relative_to_the_root() {
    assert_eq!(sandbox_candidate("/repo", "//etc/passwd"), "/repo/etc/passwd");
    assert_eq!(sandbox_candidate("/repo", "a/../../x"), "/repo/a/../../x");
}

#[test]
fn sandbox_refuses_what_resolves_outside() {
    let r = sanitize_path(Some("/etc/passwd".to_string()), Some("/repo".to_string()));
    assert_eq!(r.unwrap_err().kind, ErrorKind::Forbidden);
    let r = sanitize_path(Some("/repository/x".to_string()), Some("/repo".to_string()));
    assert_eq!(r.unwrap_err().kind, ErrorKind::Forbidden);
    let r = sanitize_path(None, Some("/repo".to_string()));
    assert_eq!(r.unwrap_err().kind, ErrorKind::NotFound);
    let r = sanitize_path(Some("/repo/a".to_string()), None);
    assert_eq!(r.unwrap_err().kind, ErrorKind::Internal);
    assert_eq!(sanitize_path(Some("/repo/a/b".to_string()), Some("/repo".to_string())).unwrap(), "/repo/a/b");
    assert_eq!(sanitize_path(Some("/repo".to_string()), Some("/repo".to_string())).unwrap(), "/repo");
}

#[test]
fn relative_part_below_the_root() {
    assert_eq!(to_relative("/repo", "/repo/a/b.json"), Some("a/b.json".to_string()));
    assert_eq!(to_relative("/repo", "/repo"), Some(String::new()));
    assert_eq!(to_relative("/repo", "/elsewhere/a"), None);
    assert_eq!(to_relative("/repo", "/repox/a"), None);
    assert_eq!(to_relative("/a/b/", "/a/b"), Some(String::new()));
    assert_eq!(to_relative("/a//b", "/a/b//c/d/"), Some("c/d".to_string()));
    assert_eq!(to_relative("/a/b", "/a/./b/c"), Some("c".to_string()));
}
