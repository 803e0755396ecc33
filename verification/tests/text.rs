use nb2typst::text::{
    concat_strings, join_strings, push_decimal, push_repeated, push_replaced,
    push_signed_decimal, str_eq, strip_prefix, strip_trailing_newlines,
};

fn decimal(n: u64) -> String {
    let mut out = String::new();
    push_decimal(&mut out, n);
    out
}

fn signed(v: i32) -> String {
    let mut out = String::new();
    push_signed_decimal(&mut out, v);
    out
}

#[test]
fn decimal_numerals() {
    assert_eq!(decimal(0), "0");
    assert_eq!(decimal(7), "7");
    assert_eq!(decimal(10), "10");
    assert_eq!(decimal(12345), "12345");
    assert_eq!(decimal(u64::MAX), "18446744073709551615");
}

#[test]
fn signed_decimal_numerals() {
    assert_eq!(signed(0), "0");
    assert_eq!(signed(42), "42");
    assert_eq!(signed(-1), "-1");
    assert_eq!(signed(i32::MAX), "2147483647");
    assert_eq!(signed(i32::MIN), "-2147483648");
}

#[test]
fn repeated_characters() {
    let mut out = String::from("a");
    push_repeated(&mut out, '=', 3);
    push_repeated(&mut out, 'x', 0);
    assert_eq!(out, "a===");
}

#[test]
fn replacing_a_character() {
    let mut out = String::from("[");
    push_replaced(&mut out, "x.y", '.', "::");
    assert_eq!(out, "[x::y");
    push_replaced(&mut out, "a\nb\n", '\n', "\n  ");
    assert_eq!(out, "[x::ya\n  b\n  ");
    push_replaced(&mut out, "", 'a', "b");
    push_replaced(&mut out, "aaa", 'a', "");
    assert_eq!(out, "[x::ya\n  b\n  ");
}

#[test]
fn concat_and_join() {
    let parts = vec!["a".to_string(), "".to_string(), "b\n".to_string()];
    assert_eq!(concat_strings(&parts), "ab\n");
    assert_eq!(join_strings(&parts, ", "), "a, , b\n");
    assert_eq!(join_strings(&vec![], ", "), "");
    assert_eq!(join_strings(&vec!["x".to_string()], ", "), "x");
}

#[test]
fn trailing_newlines_go() {
    assert_eq!(strip_trailing_newlines("a\n\nb\n\n"), "a\n\nb");
    assert_eq!(strip_trailing_newlines("\n\n"), "");
    assert_eq!(strip_trailing_newlines("a\n "), "a\n ");
    assert_eq!(strip_trailing_newlines(""), "");
}

#[test]
fn prefix_is_stripped() {
    assert_eq!(strip_prefix("attachment:x.png", "attachment:"), Some("x.png".to_string()));
    assert_eq!(strip_prefix("attachment:", "attachment:"), Some(String::new()));
    assert_eq!(strip_prefix("attach", "attachment:"), None);
    assert_eq!(strip_prefix("Attachment:x", "attachment:"), None);
    assert_eq!(strip_prefix("年月日", "年月"), Some("日".to_string()));
    assert_eq!(strip_prefix("abc", ""), Some("abc".to_string()));
}

#[test]
fn equal_strings() {
    assert!(str_eq("", ""));
    assert!(str_eq("ol", "ol"));
    assert!(!str_eq("ol", "ul"));
    assert!(!str_eq("b", "br"));
    assert!(!str_eq("br", "b"));
    assert!(str_eq("年月日", "年月日"));
    assert!(!str_eq("年月日", "年月曰"));
}
