use http_cache_semantics::directives::{format_cache_control, parse_cache_control, CacheControl};
use http_cache_semantics::fields::FieldValue;

fn value(bytes: &[u8]) -> FieldValue {
    FieldValue { bytes: bytes.to_vec(), sensitive: false }
}

fn parse(values: &[&str]) -> CacheControl {
    parse_cache_control(&values.iter().map(|v| value(v.as_bytes())).collect())
}

#[test]
fn reads_flags_and_values() {
    let cc = parse(&["public, max-age=60 , x = \"a b\""]);
    assert!(cc.contains_key("public"));
    assert_eq!(cc.argument("public"), None);
    assert_eq!(cc.argument("max-age"), Some(&String::from("60")));
    assert_eq!(cc.numeric("max-age"), Some(60));
    assert_eq!(cc.argument("x"), Some(&String::from("a b")));
    assert_eq!(cc.numeric("x"), None);
    assert!(!cc.contains_key("private"));
    assert!(!cc.contains_key("must-revalidate"));
}

#[test]
fn names_are_not_made_small() {
    let cc = parse(&["Max-Age=60"]);
    assert!(!cc.contains_key("max-age"));
    assert!(cc.contains_key("Max-Age"));
}

#[test]
fn reads_all_values_of_the_field() {
    let cc = parse(&["public", "max-age=5"]);
    assert!(cc.contains_key("public"));
    assert_eq!(cc.numeric("max-age"), Some(5));
}

#[test]
fn passes_over_pieces_without_a_name() {
    let cc = parse(&[" , =5, ,a"]);
    assert!(cc.contains_key("a"));
    assert!(!cc.contains_key(""));
    assert_eq!(format_cache_control(&cc), "a");
}

#[test]
fn passes_over_values_that_are_not_text() {
    let cc = parse_cache_control(&vec![value(b"a\xff, b"), value(b"c")]);
    assert!(!cc.contains_key("b"));
    assert!(cc.contains_key("c"));
}

#[test]
fn repeated_directives_do_no_harm() {
    let cc = parse(&["max-age=60, public", "public, max-age=60"]);
    assert!(!cc.contains_key("must-revalidate"));
}

#[test]
fn contradictions_force_revalidation() {
    assert!(parse(&["max-age=60, max-age=61"]).contains_key("must-revalidate"));
    assert!(parse(&["max-age=60, max-age"]).contains_key("must-revalidate"));
    assert_eq!(parse(&["max-age=60, max-age=61"]).numeric("max-age"), Some(60));
    // The value that was kept has lost its quotation marks, the repeated one has not.
    assert!(parse(&["a=\"b\", a=\"b\""]).contains_key("must-revalidate"));
    assert!(!parse(&["a=\"b\", a=b"]).contains_key("must-revalidate"));
}

#[test]
fn writes_quotation_marks_where_they_are_needed() {
    assert_eq!(format_cache_control(&parse(&["a=1, b=\"\", c=x-y, d"])), "a=1, b=\"\", c=\"x-y\", d");
    assert_eq!(format_cache_control(&parse(&[""])), "");
}

#[test]
fn written_directives_read_back() {
    for text in ["a=1, b=\"\", c=\"x=y\", d", "no-cache=\"set-cookie\", max-age=0", "a=\" b \""] {
        let written = format_cache_control(&parse(&[text]));
        let again = format_cache_control(&parse(&[&written]));
        assert_eq!(again, written);
        assert_eq!(written, text);
    }
}

#[test]
fn directives_are_set_and_taken_out() {
    let mut cc = parse(&["a=1, b"]);
    cc.set_flag("a");
    cc.set_flag("c");
    assert_eq!(format_cache_control(&cc), "a, b, c");
    cc.remove("a");
    cc.remove("x");
    assert_eq!(format_cache_control(&cc), "b, c");
}
