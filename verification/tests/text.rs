use powdr::text::{decimal_string, ends_with, join, str_equal};

#[test]
fn join_puts_the_separator_between_items() {
    let items = vec!["a".to_string(), "bc".to_string(), "d".to_string()];
    assert_eq!(join(&items, ", "), "a, bc, d");
    assert_eq!(join(&items[..1], ", "), "a");
    assert_eq!(join(&[], ", "), "");
}

#[test]
fn decimal_string_writes_integers() {
    assert_eq!(decimal_string(0), "0");
    assert_eq!(decimal_string(7), "7");
    assert_eq!(decimal_string(10), "10");
    assert_eq!(decimal_string(1234567890), "1234567890");
    assert_eq!(decimal_string(u64::MAX), u64::MAX.to_string());
}

#[test]
fn ends_with_and_equality() {
    assert!(ends_with("foo/Cargo.toml", "Cargo.toml"));
    assert!(ends_with("x.s", ".s"));
    assert!(ends_with("abc", ""));
    assert!(!ends_with("a.rs", ".s."));
    assert!(!ends_with("s", ".s"));
    assert!(ends_with("ünï.s", ".s"));
    assert!(str_equal("äb", "äb"));
    assert!(!str_equal("ab", "abc"));
    assert!(!str_equal("ab", "ac"));
}
