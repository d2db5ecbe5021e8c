use oneshell::paths::join_str;
use oneshell::text::{decimal_chars, radix_chars, trim_str};

#[test]
fn trim_removes_unicode_white_space() {
    assert_eq!(trim_str("  a b \t\n"), "a b");
    assert_eq!(trim_str("\u{a0}\u{2003}x\u{3000}"), "x");
    assert_eq!(trim_str("   "), "");
    assert_eq!(trim_str("\u{200b}x"), "\u{200b}x");
}

#[test]
fn decimal_and_octal_digits() {
    assert_eq!(decimal_chars(0).iter().collect::<String>(), "0");
    assert_eq!(decimal_chars(18446744073709551615).iter().collect::<String>(), "18446744073709551615");
    assert_eq!(radix_chars(0o755, 8).iter().collect::<String>(), "755");
    assert_eq!(radix_chars(8, 8).iter().collect::<String>(), "10");
}

#[test]
fn join_follows_unix_path_rules() {
    assert_eq!(join_str("/a", "b"), "/a/b");
    assert_eq!(join_str("/a/", "b"), "/a/b");
    assert_eq!(join_str("/a", "/etc"), "/etc");
    assert_eq!(join_str("", "b"), "b");
    assert_eq!(join_str("/a", ""), "/a/");
}
