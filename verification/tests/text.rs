use rs_threads_board::routing::parse_unsigned_text;
use rs_threads_board::text::{
    decimal_string, push_signed_decimal, split, str_eq, to_owned_string, trim,
};

#[test]
fn trims_unicode_whitespace() {
    assert_eq!(trim("  a b \t"), "a b");
    assert_eq!(trim("\u{3000}x\u{3000}"), "x");
    assert_eq!(trim("   "), "");
    assert_eq!(trim(""), "");
}

#[test]
fn splits_on_separator() {
    assert_eq!(split("a,,b", ','), vec!["a".to_string(), "".to_string(), "b".to_string()]);
    assert_eq!(split("", ','), vec!["".to_string()]);
    assert_eq!(split("x,", ','), vec!["x".to_string(), "".to_string()]);
}

#[test]
fn writes_decimal() {
    assert_eq!(decimal_string(0), "0");
    assert_eq!(decimal_string(1234), "1234");
    assert_eq!(decimal_string(u64::MAX), u64::MAX.to_string());
    let mut s = String::from("n=");
    push_signed_decimal(&mut s, -5);
    assert_eq!(s, "n=-5");
    let mut s = String::new();
    push_signed_decimal(&mut s, i64::MIN);
    assert_eq!(s, i64::MIN.to_string());
}

#[test]
fn compares_texts() {
    assert!(str_eq("가a", "가a"));
    assert!(!str_eq("a", "ab"));
    assert_eq!(to_owned_string("q"), "q");
}

#[test]
fn decimal_reads_back() {
    for n in [0u64, 7, 10, 99, 12345, u64::MAX] {
        assert_eq!(parse_unsigned_text(&decimal_string(n), u64::MAX), Some(n));
    }
}

#[test]
fn trimming_twice_changes_nothing() {
    for s in ["  a  ", "\u{2003}b c\u{85}", "", "   "] {
        assert_eq!(trim(trim(s)), trim(s));
    }
}
