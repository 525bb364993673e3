use crambo_desktop::text::{
    chars_contain, chars_of, concat_str, decimal_string, str_contains, str_equal, trim,
    trim_double_quotes,
};

#[test]
fn trim_removes_ascii_and_unicode_white_space() {
    assert_eq!(trim("  \t hello world \n"), "hello world");
    assert_eq!(trim("\u{3000}\u{a0}code\u{2029}"), "code");
    assert_eq!(trim("   "), "");
    assert_eq!(trim(""), "");
    assert_eq!(trim("a b"), "a b");
}

#[test]
fn trim_double_quotes_strips_both_ends_only() {
    assert_eq!(trim_double_quotes("\"crambo://auth?token=x\""), "crambo://auth?token=x");
    assert_eq!(trim_double_quotes("\"\"\"a\"b\"\""), "a\"b");
    assert_eq!(trim_double_quotes("\"\""), "");
    assert_eq!(trim_double_quotes(" \"a\" "), " \"a\" ");
}

#[test]
fn decimal_string_writes_like_display() {
    assert_eq!(decimal_string(0), "0");
    assert_eq!(decimal_string(7), "7");
    assert_eq!(decimal_string(10), "10");
    assert_eq!(decimal_string(12345), "12345");
    assert_eq!(decimal_string(usize::MAX), usize::MAX.to_string());
}

#[test]
fn contains_and_equal_on_characters() {
    assert!(str_contains("zoom.us", "zoom"));
    assert!(str_contains("abc", ""));
    assert!(!str_contains("zo", "zoom"));
    assert!(str_contains("黑风雷", "风雷"));
    assert!(chars_contain(&chars_of("teams"), &chars_of("eam")));
    assert!(str_equal("token", "token"));
    assert!(!str_equal("token", "tokens"));
    assert_eq!(concat_str("ab", "cd"), "abcd");
}

