use whatszara::text::{
    contains_str, decimal_string, split_whitespace, starts_with_str, str_eq, take_chars, trim,
};

#[test]
fn trim_removes_surrounding_white_space() {
    assert_eq!(trim("  hello world \n\t"), "hello world");
    assert_eq!(trim("\u{a0}x\u{3000}"), "x");
    assert_eq!(trim("   "), "");
    assert_eq!(trim(""), "");
    assert_eq!(trim("a b"), "a b");
}

#[test]
fn words_are_split_on_any_white_space() {
    assert_eq!(split_whitespace("  allow   pa_2 \n now"), vec!["allow", "pa_2", "now"]);
    assert_eq!(split_whitespace(""), Vec::<String>::new());
    assert_eq!(split_whitespace(" \t "), Vec::<String>::new());
    assert_eq!(split_whitespace("one"), vec!["one"]);
}

#[test]
fn search_finds_substrings_and_prefixes() {
    assert!(contains_str("please show pending now", "show pending"));
    assert!(!contains_str("show pendin", "show pending"));
    assert!(contains_str("abc", ""));
    assert!(starts_with_str("allow pa_1", "allow "));
    assert!(!starts_with_str("allow", "allow "));
    assert!(str_eq("same", "same"));
    assert!(!str_eq("same", "Same"));
}

#[test]
fn decimal_notation_matches_display() {
    for n in [0u64, 7, 10, 99, 100, 12345, u64::MAX] {
        assert_eq!(decimal_string(n), n.to_string());
    }
}

#[test]
fn take_chars_counts_characters_not_bytes() {
    assert_eq!(take_chars("héllo", 2), "hé");
    assert_eq!(take_chars("abc", 10), "abc");
    assert_eq!(take_chars("abc", 0), "");
}

#[test]
fn white_space_is_the_unicode_list() {
    assert_eq!(trim("\u{2028}\u{85}x\u{b}\u{205f}"), "x");
    assert_eq!(trim("\u{200b}x"), "\u{200b}x");
    assert_eq!(split_whitespace("a\u{1680}b\u{200b}c"), vec!["a", "b\u{200b}c"]);
}

#[test]
fn white_space_agrees_with_the_standard_test() {
    for n in 0u32..0x3100 {
        if let Some(c) = char::from_u32(n) {
            assert_eq!(trim(&c.to_string()).is_empty(), c.is_whitespace(), "code point {:x}", n);
        }
    }
}
