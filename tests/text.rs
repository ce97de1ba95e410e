use group_search::text::{escape_html, flatten_lines, is_blank_text, push_decimal, push_signed_decimal, trim};

#[test]
fn trim_removes_unicode_whitespace_at_both_ends() {
    assert_eq!(trim("  a b \n"), "a b");
    assert_eq!(trim("\u{3000}喵\u{a0}"), "喵");
    assert_eq!(trim(" \t "), "");
    assert_eq!(trim(""), "");
    assert_eq!(trim("x"), "x");
}

#[test]
fn blank_text_is_only_whitespace() {
    assert!(is_blank_text(""));
    assert!(is_blank_text(" \u{2028}\r"));
    assert!(!is_blank_text(" . "));
}

#[test]
fn escaping_and_flattening() {
    assert_eq!(escape_html("<b>&</b>"), "&lt;b&gt;&amp;&lt;/b&gt;");
    assert_eq!(escape_html("喵"), "喵");
    assert_eq!(flatten_lines("a\nb\n"), "a b ");
}

#[test]
fn decimals() {
    let mut s = String::from("n=");
    push_decimal(&mut s, 0);
    push_decimal(&mut s, 1234567890);
    push_signed_decimal(&mut s, -42);
    push_signed_decimal(&mut s, i64::MIN);
    assert_eq!(s, "n=01234567890-42-9223372036854775808");
}
