use swerve::strutil::{find_char, str_ends_with, str_eq, str_le, str_starts_with, u64_to_dec};

#[test]
fn decimal_rendering() {
    assert_eq!(u64_to_dec(0), "0");
    assert_eq!(u64_to_dec(7), "7");
    assert_eq!(u64_to_dec(1234), "1234");
    assert_eq!(u64_to_dec(u64::MAX), "18446744073709551615");
}

#[test]
fn lexicographic_order() {
    assert!(str_le("a", "b"));
    assert!(!str_le("b", "a"));
    assert!(str_le("abc", "abc"));
    assert!(str_le("ab", "abc"));
    assert!(!str_le("abc", "ab"));
    assert!(str_le("", "a"));
    assert!(str_le("A", "a")); // by code point
}

#[test]
fn prefix_and_suffix() {
    assert!(str_starts_with("Basic abc", "Basic "));
    assert!(!str_starts_with("Bearer abc", "Basic "));
    assert!(str_ends_with("page.html", ".html"));
    assert!(!str_ends_with("page.htm", ".html"));
    assert!(str_ends_with("x", ""));
}

#[test]
fn equality_and_search() {
    assert!(str_eq("same", "same"));
    assert!(!str_eq("same", "sane"));
    assert_eq!(find_char("user:pass", ':'), Some(4));
    assert_eq!(find_char("nope", ':'), None);
}
