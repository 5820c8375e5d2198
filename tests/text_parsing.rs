use desktop_agent::text::{contains_str, decimal_string, parse_u64, split_lines, split_words, starts_with_str, trim_str};

#[test]
fn decimal_string_writes_digits() {
    assert_eq!(decimal_string(0), "0");
    assert_eq!(decimal_string(7), "7");
    assert_eq!(decimal_string(12345), "12345");
    assert_eq!(decimal_string(u64::MAX), "18446744073709551615");
}

#[test]
fn contains_and_prefix() {
    assert!(contains_str("2024 Daemon is ready now", "Daemon is ready"));
    assert!(!contains_str("Daemon is starting", "Daemon is ready"));
    assert!(contains_str("abc", ""));
    assert!(!contains_str("ab", "abc"));
    assert!(starts_with_str("RepoSize: 12", "RepoSize"));
    assert!(!starts_with_str(" RepoSize: 12", "RepoSize"));
}

#[test]
fn lines_split_at_line_feeds() {
    assert_eq!(split_lines("a\r\nb\nc"), vec!["a", "b", "c"]);
    assert_eq!(split_lines("a\n\nb\n"), vec!["a", "", "b", ""]);
    assert_eq!(split_lines(""), vec![""]);
}

#[test]
fn words_skip_runs_of_whitespace() {
    assert_eq!(split_words("  RepoSize:\t 42  "), vec!["RepoSize:", "42"]);
    assert!(split_words("   ").is_empty());
    assert_eq!(split_words("a\u{a0}b\u{3000}c"), vec!["a", "b", "c"]);
}

#[test]
fn trim_removes_outer_whitespace() {
    assert_eq!(trim_str("  bafy xyz \t"), "bafy xyz");
    assert_eq!(trim_str("   "), "");
    assert_eq!(trim_str("x"), "x");
    assert_eq!(trim_str("\u{2003}cid\u{85}"), "cid");
}

#[test]
fn parse_u64_reads_decimals() {
    assert_eq!(parse_u64("0"), Some(0));
    assert_eq!(parse_u64("123456"), Some(123456));
    assert_eq!(parse_u64("18446744073709551615"), Some(u64::MAX));
    assert_eq!(parse_u64("18446744073709551616"), None);
    assert_eq!(parse_u64(""), None);
    assert_eq!(parse_u64("12a"), None);
    assert_eq!(parse_u64("-1"), None);
    assert_eq!(parse_u64("+42"), Some(42));
    assert_eq!(parse_u64("+"), None);
    assert_eq!(parse_u64("++1"), None);
}
