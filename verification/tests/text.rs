use spear::text::{
    chars_of, decimal_chars, i32_decimal_chars, is_blank, parse_usize, str_contains, str_eq,
    str_starts_with, trim_str,
};

fn s(v: Vec<char>) -> String {
    v.into_iter().collect()
}

#[test]
fn trimming_matches_str_trim() {
    for t in ["  a b  ", "\u{3000}x\u{00A0}", "\t\n", "", "abc", " \u{2028}y\u{85}"] {
        assert_eq!(trim_str(t), t.trim(), "{:?}", t);
        assert_eq!(is_blank(t), t.trim().is_empty());
    }
}

#[test]
fn contains_and_prefix() {
    assert!(str_contains("hello world", "lo w"));
    assert!(str_contains("abc", ""));
    assert!(!str_contains("abc", "abcd"));
    assert!(!str_contains("", "a"));
    assert!(str_starts_with("settings", "set"));
    assert!(!str_starts_with("set", "settings"));
    assert!(str_eq("é", "é"));
    assert!(!str_eq("a", "b"));
}

#[test]
fn decimals() {
    assert_eq!(s(decimal_chars(0)), "0");
    assert_eq!(s(decimal_chars(1234567890)), "1234567890");
    assert_eq!(s(i32_decimal_chars(-42)), "-42");
    assert_eq!(s(i32_decimal_chars(i32::MIN)), i32::MIN.to_string());
    assert_eq!(s(i32_decimal_chars(i32::MAX)), i32::MAX.to_string());
}

#[test]
fn parsing_matches_str_parse() {
    for t in ["0", "+7", "12", "", "+", "-1", "1a", "007", "18446744073709551615", "18446744073709551616"] {
        assert_eq!(parse_usize(&chars_of(t)), t.parse::<usize>().ok(), "{:?}", t);
    }
}
