use http_cache_semantics::text::{
    append_part, ascii_len, bytes_equal, contains, decimal_text, equals_position, join, needs_quotes,
    parse_number, split_commas, starts_with, strip_weak_marks, text_equal, trim, unquote,
};

#[test]
fn reads_numbers() {
    assert_eq!(parse_number("12"), Some(12));
    assert_eq!(parse_number("+12"), Some(12));
    assert_eq!(parse_number("007"), Some(7));
    assert_eq!(parse_number("0"), Some(0));
    assert_eq!(parse_number("18446744073709551615"), Some(u64::MAX));
}

#[test]
fn refuses_what_is_no_number() {
    for text in ["", "+", "-1", "-0", " 1", "1 ", "1.5", "12a", "++1", "18446744073709551616"] {
        assert_eq!(parse_number(text), None, "{}", text);
        assert!(text.parse::<u64>().is_err());
    }
}

#[test]
fn writes_numbers_that_read_back() {
    for n in [0, 1, 9, 10, 11, 99, 100, 4294967295, 4294967296, u64::MAX] {
        assert_eq!(decimal_text(n), n.to_string());
        assert_eq!(parse_number(&decimal_text(n)), Some(n));
    }
}

#[test]
fn trims_blanks() {
    assert_eq!(trim(" \t a b\t "), "a b");
    assert_eq!(trim("  "), "");
    assert_eq!(trim(""), "");
    assert_eq!(trim("x"), "x");
}

#[test]
fn takes_off_quotation_marks() {
    assert_eq!(unquote("\"\"a\"b\""), "a\"b");
    assert_eq!(unquote("\""), "");
    assert_eq!(unquote("a"), "a");
}

#[test]
fn splits_at_commas() {
    assert_eq!(split_commas("a, b,,c"), vec!["a", " b", "", "c"]);
    assert_eq!(split_commas(""), vec![""]);
    assert_eq!(split_commas(","), vec!["", ""]);
}

#[test]
fn finds_the_first_equals_sign() {
    assert_eq!(equals_position("a=b=c"), 1);
    assert_eq!(equals_position("=b"), 0);
    assert_eq!(equals_position("abc"), 3);
}

#[test]
fn joins_with_commas() {
    let parts = |list: &[&str]| list.iter().map(|p| p.to_string()).collect::<Vec<String>>();
    assert_eq!(join(&parts(&["a", "b", "c"])), "a, b, c");
    assert_eq!(join(&parts(&[])), "");
    // No comma is written while nothing else has been.
    assert_eq!(join(&parts(&["", "", "a", "", "b"])), "a, , b");
    let mut out = String::from("x");
    append_part(&mut out, "y");
    assert_eq!(out, "x, y");
}

#[test]
fn finds_text_in_text() {
    assert!(contains("a no-cache b", "no-cache"));
    assert!(contains("no-cache", "no-cache"));
    assert!(!contains("no-cach", "no-cache"));
    assert!(!contains("No-Cache", "no-cache"));
    assert!(contains("abc", ""));
    assert!(starts_with("W/\"a\"", "W/"));
    assert!(!starts_with("W", "W/"));
    assert!(!starts_with("\"W/\"", "W/"));
}

#[test]
fn takes_off_every_weak_mark() {
    assert_eq!(strip_weak_marks("W/\"a\""), "\"a\"");
    assert_eq!(strip_weak_marks("W/W/\"a\""), "\"a\"");
    assert_eq!(strip_weak_marks("w/\"a\""), "w/\"a\"");
    assert_eq!(strip_weak_marks("W"), "W");
}

#[test]
fn knows_what_needs_quotes() {
    assert!(needs_quotes(""));
    assert!(needs_quotes("a b"));
    assert!(needs_quotes("a-b"));
    assert!(!needs_quotes("aZ09"));
}

#[test]
fn compares_text() {
    assert!(text_equal("GET", "GET"));
    assert!(!text_equal("GET", "get"));
    assert!(!text_equal("GET", "GETS"));
    assert!(bytes_equal(&[1, 2], &[1, 2]));
    assert!(!bytes_equal(&[1, 2], &[1, 3]));
    assert!(!bytes_equal(&[1], &[1, 2]));
    assert_eq!(ascii_len("max-age"), 7);
}
