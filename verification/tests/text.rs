use seagull::text::{
    chars_of, concat_str, contains_chars, format_decimal, format_hex_alternate, parse_u64,
    starts_with, str_eq, trim_chars,
};

#[test]
fn parse_u64_cases() {
    assert_eq!(parse_u64("0"), Some(0));
    assert_eq!(parse_u64("1234"), Some(1234));
    assert_eq!(parse_u64("+7"), Some(7));
    assert_eq!(parse_u64("007"), Some(7));
    assert_eq!(parse_u64("18446744073709551615"), Some(u64::MAX));
    assert_eq!(parse_u64("18446744073709551616"), None);
    assert_eq!(parse_u64(""), None);
    assert_eq!(parse_u64("+"), None);
    assert_eq!(parse_u64("-1"), None);
    assert_eq!(parse_u64("12a"), None);
    assert_eq!(parse_u64(" 12"), None);
    assert_eq!(parse_u64("++1"), None);
}

#[test]
fn parse_u64_agrees_with_std() {
    for s in ["42", "+0", "99999999999999999999", "4x", "", "٣", "+-1"] {
        assert_eq!(parse_u64(s), s.parse::<u64>().ok(), "{}", s);
    }
}

#[test]
fn format_and_parse_round_trip() {
    for n in [0u64, 9, 10, 255, 1_600_000_000, u64::MAX] {
        let text = format_decimal(n);
        assert_eq!(text, n.to_string());
        assert_eq!(parse_u64(&text), Some(n));
        assert_eq!(format_hex_alternate(n), format!("{:#x}", n));
    }
}

#[test]
fn trim_matches_std() {
    for s in ["  a b \t", "\u{3000}x\u{2028}", "", "   ", "\u{85}*\n", "no-space"] {
        let trimmed: String = trim_chars(&chars_of(s)).into_iter().collect();
        assert_eq!(trimmed, s.trim());
    }
}

#[test]
fn contains_and_starts_with() {
    let s = chars_of("hello world");
    assert!(contains_chars(&s, &chars_of("lo w")));
    assert!(contains_chars(&s, &chars_of("")));
    assert!(!contains_chars(&s, &chars_of("world!")));
    assert!(starts_with("text/html; charset=utf-8", "text/html"));
    assert!(!starts_with("text/htm", "text/html"));
    assert!(str_eq("abc", "abc"));
    assert!(!str_eq("abc", "abd"));
    assert_eq!(concat_str("ab", "cd"), "abcd");
}
