use blobstream::error::StreamCacheError;
use blobstream::text::{decimal_text, has_prefix, joined_text, same_text};

#[test]
fn decimal_digits() {
    for n in [0, 9, 10, 99, 100, 12345, 1 << 40, u64::MAX] {
        assert_eq!(decimal_text(n), format!("{n}"));
    }
}

#[test]
fn prefixes() {
    assert!(has_prefix("sha256:abc", "sha256:"));
    assert!(has_prefix("sha256:", "sha256:"));
    assert!(has_prefix("", ""));
    assert!(!has_prefix("sha256", "sha256:"));
    assert!(!has_prefix("sha512:abc", "sha256:"));
}

#[test]
fn comparing_and_joining() {
    assert!(same_text("a\u{e9}", "a\u{e9}"));
    assert!(!same_text("a", "b"));
    assert_eq!(joined_text("a", "\u{e9}b"), "a\u{e9}b");
}

#[test]
fn error_messages() {
    assert_eq!(
        StreamCacheError::Upstream("x".to_string()).message(),
        "Upstream blob request failed: x"
    );
    assert_eq!(StreamCacheError::Io("y".to_string()).message(), "IO error: y");
    assert_eq!(
        StreamCacheError::Download("z".to_string()).message(),
        "Download failed: z"
    );
}
