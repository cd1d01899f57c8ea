use autoloop::text::{
    find_sub, i64_to_dec, json_quote_str, quote_str, render_command_list,
    render_json_string_list, replace_all, str_eq, trim_str, u64_to_dec, u64_to_pad3,
};

#[test]
fn string_equality_by_characters() {
    assert!(str_eq("abc", "abc"));
    assert!(!str_eq("abc", "abd"));
    assert!(!str_eq("abc", "abcd"));
    assert!(str_eq("", ""));
}

#[test]
fn find_first_occurrence() {
    assert_eq!(find_sub("abcabc", "bc"), Some(1));
    assert_eq!(find_sub("abc", "cd"), None);
    assert_eq!(find_sub("abc", ""), Some(0));
}

#[test]
fn replace_all_is_leftmost_and_non_overlapping() {
    assert_eq!(replace_all("aaa", "aa", "b"), "ba");
    assert_eq!(replace_all("x{v}y{v}", "{v}", "1"), "x1y1");
    assert_eq!(replace_all("none", "{v}", "1"), "none");
}

#[test]
fn replacement_is_not_rescanned() {
    assert_eq!(replace_all("ab", "ab", "abab"), "abab");
}

#[test]
fn trim_matches_unicode_whitespace() {
    assert_eq!(trim_str("  hello \n\t"), "hello");
    assert_eq!(trim_str("\u{a0}x\u{2003}"), "x");
    assert_eq!(trim_str("   "), "");
    assert_eq!(trim_str(""), "");
}

#[test]
fn decimal_rendering() {
    assert_eq!(u64_to_dec(0), "0");
    assert_eq!(u64_to_dec(12345), "12345");
    assert_eq!(i64_to_dec(-5), "-5");
    assert_eq!(i64_to_dec(0), "0");
    assert_eq!(i64_to_dec(i64::MIN), "-9223372036854775808");
}

#[test]
fn three_digit_padding() {
    assert_eq!(u64_to_pad3(7), "007");
    assert_eq!(u64_to_pad3(42), "042");
    assert_eq!(u64_to_pad3(123), "123");
    assert_eq!(u64_to_pad3(1234), "1234");
}

#[test]
fn json_quoting_escapes() {
    assert_eq!(json_quote_str("a\"b\\c\nd"), "\"a\\\"b\\\\c\\nd\"");
    assert_eq!(json_quote_str("\u{1}"), "\"\\u0001\"");
    assert_eq!(json_quote_str("\t\r"), "\"\\t\\r\"");
    assert_eq!(json_quote_str(""), "\"\"");
}

#[test]
fn debug_quoting_escapes() {
    assert_eq!(quote_str("a\"b"), "\"a\\\"b\"");
    assert_eq!(quote_str("x\ny"), "\"x\\ny\"");
    assert_eq!(quote_str("\u{1f}"), "\"\\u{1f}\"");
}

#[test]
fn debug_quoting_escapes_invisible_format_characters() {
    // The bidirectional override and other format characters never reach
    // a prompt raw.
    assert_eq!(quote_str("a\u{202e}b"), "\"a\\u{202e}b\"");
    assert_eq!(quote_str("\u{200b}"), "\"\\u{200b}\"");
    assert_eq!(quote_str("\u{85}"), "\"\\u{85}\"");
    // Ordinary non-ASCII text stands as itself.
    assert_eq!(quote_str("héllo"), "\"héllo\"");
}

#[test]
fn command_list_rendering() {
    let v = vec!["rm".to_string(), "-rf".to_string()];
    assert_eq!(render_command_list(&v), "[\"rm\", \"-rf\"]");
    let empty: Vec<String> = vec![];
    assert_eq!(render_command_list(&empty), "[]");
}

#[test]
fn json_string_list_rendering() {
    let v = vec!["a".to_string(), "b\"c".to_string()];
    assert_eq!(render_json_string_list(&v), "[\"a\",\"b\\\"c\"]");
    let empty: Vec<String> = vec![];
    assert_eq!(render_json_string_list(&empty), "[]");
}
