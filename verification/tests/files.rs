use orchestrator::files::{content_type, is_header_safe};

#[test]
fn media_types_by_extension() {
    assert_eq!(content_type("/repo/papers/a.pdf"), "application/pdf");
    assert_eq!(content_type("/repo/data/x.JSON"), "application/json");
    assert_eq!(content_type("notes.txt"), "text/plain");
    assert_eq!(content_type("/repo/unknown.zzzzzz"), "application/octet-stream");
    assert_eq!(content_type("/repo/no_extension"), "application/octet-stream");
}

#[test]
fn header_values() {
    assert!(is_header_safe("text/plain; charset=utf-8"));
    assert!(is_header_safe("a\tb"));
    assert!(is_header_safe(""));
    assert!(is_header_safe("é"));
    assert!(!is_header_safe("a\nb"));
    assert!(!is_header_safe("a\u{7f}"));
    assert!(!is_header_safe("\u{0}"));
}
