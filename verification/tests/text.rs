use sitwego_api::text::{
    chars_of, decimal_string, eq_ignore_ascii_case, is_whitespace, lower_chars, occurs,
    signed_decimal_string, string_of, to_ascii_lower, to_ascii_upper, trim_chars, upper_chars,
};

#[test]
fn ascii_case_folding_leaves_other_characters() {
    assert_eq!(to_ascii_lower('Q'), 'q');
    assert_eq!(to_ascii_lower('é'), 'é');
    assert_eq!(to_ascii_upper('z'), 'Z');
    assert_eq!(to_ascii_upper('1'), '1');
    assert_eq!(string_of(&lower_chars(&chars_of("Tuk-TUK Ä"))), "tuk-tuk Ä");
    assert_eq!(string_of(&upper_chars(&chars_of("ab_9-ß"))), "AB_9-ß");
}

#[test]
fn case_insensitive_comparison() {
    assert!(eq_ignore_ascii_case("Completed", "COMPLETED"));
    assert!(!eq_ignore_ascii_case("Completed", "Complete"));
    assert!(eq_ignore_ascii_case("", ""));
}

#[test]
fn whitespace_matches_std() {
    for c in [' ', '\t', '\n', '\u{a0}', '\u{2003}', '\u{3000}', 'a', '_', '\u{200b}'] {
        assert_eq!(is_whitespace(c), c.is_whitespace(), "{:?}", c);
    }
}

#[test]
fn trimming_matches_str_trim() {
    for s in ["  a b  ", "\u{a0}x\u{2009}", "", "   ", "no-space"] {
        assert_eq!(string_of(&trim_chars(&chars_of(s))), s.trim());
    }
}

#[test]
fn substring_search() {
    assert!(occurs(&chars_of("motorbike"), &chars_of("bike")));
    assert!(occurs(&chars_of("abc"), &chars_of("")));
    assert!(!occurs(&chars_of("bik"), &chars_of("bike")));
}

#[test]
fn decimal_rendering() {
    assert_eq!(decimal_string(0), "0");
    assert_eq!(decimal_string(30_000), "30000");
    assert_eq!(decimal_string(u64::MAX), u64::MAX.to_string());
    assert_eq!(signed_decimal_string(-2026), "-2026");
    assert_eq!(signed_decimal_string(i64::MIN), i64::MIN.to_string());
    assert_eq!(signed_decimal_string(7), "7");
}
