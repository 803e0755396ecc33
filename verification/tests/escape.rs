use nb2typst::escape::{
    escape_code, escape_content, escape_html, escape_quotes, escape_vec_code, push_escaped,
    strip_line_endings, Place,
};
use std::borrow::Cow;

#[test]
fn prose_without_sigils_is_unchanged() {
    for text in ["", "plain text", "a = b - c + d", "x=1", "tab\tand\nnewline", "年月日"] {
        let out = escape_html(text);
        assert_eq!(out, text);
        assert!(matches!(out, Cow::Borrowed(_)));
    }
}

#[test]
fn prose_sigils_get_a_backslash() {
    assert_eq!(escape_html("*a_b<c>"), r"\*a\_b\<c\>");
    assert_eq!(escape_html("= x"), r"\= x");
    assert_eq!(escape_html("- x"), r"\- x");
    assert_eq!(escape_html("+ x"), r"\+ x");
    assert_eq!(escape_html("-*"), r"\-\*");
    assert_eq!(escape_html("=="), r"\==");
    assert_eq!(escape_html("é*"), r"é\*");
}

#[test]
fn prose_escaping_is_not_idempotent() {
    let once = escape_html("*").into_owned();
    assert_eq!(once, r"\*");
    assert_eq!(escape_html(&once), r"\\*");
}

#[test]
fn quotes_get_a_backslash() {
    assert_eq!(escape_quotes(r#"a"b""#), r#"a\"b\""#);
    let same = escape_quotes("no quote * here");
    assert_eq!(same, "no quote * here");
    assert!(matches!(same, Cow::Borrowed(_)));
}

#[test]
fn content_escapes_backslash_quote_backtick() {
    assert_eq!(escape_content(r#"a\b"c`d"#), r#"a\\b\"c\`d"#);
    assert_eq!(escape_content(""), "");
    assert_eq!(escape_content("*_<>"), "*_<>");
}

#[test]
fn push_escaped_appends() {
    let mut out = String::from(">");
    push_escaped(&mut out, "a*", Place::Prose);
    push_escaped(&mut out, "a*\"", Place::Literal);
    assert_eq!(out, ">a\\*a*\\\"");
}

#[test]
fn line_endings_go_as_lines_does() {
    for text in [
        "", "a", "a\n", "a\nb", "a\r\nb\r\n", "a\r", "a\rb\n", "a\r\r\n", "\n\n", "\r\n\r",
        "\r", "x\n\ry", "é\r\nü",
    ] {
        let expected: String = text.lines().collect();
        assert_eq!(strip_line_endings(text), expected, "{:?}", text);
    }
}

#[test]
fn code_is_escaped_line_by_line() {
    assert_eq!(escape_code(&"a\"\nb`\r\nc\\".to_string()), r#"a\"b\`c\\"#);
    assert_eq!(escape_code(&String::new()), "");
}

#[test]
fn vec_code_keeps_line_endings() {
    let code = vec!["a\"\n".to_string(), "b`".to_string()];
    assert_eq!(escape_vec_code(&code), "a\\\"\nb\\`");
    assert_eq!(escape_vec_code(&vec![]), "");
}
