use orchestrator::catalog::normalize;
use orchestrator::text::{append, i64_text, parse_i64, starts_with, text_eq, trim, u64_text, underscores_to_spaces};

#[test]
fn parses_signed_decimal_integers() {
    assert_eq!(parse_i64("0"), Some(0));
    assert_eq!(parse_i64("2026"), Some(2026));
    assert_eq!(parse_i64("-17"), Some(-17));
    assert_eq!(parse_i64("+5"), Some(5));
    assert_eq!(parse_i64("007"), Some(7));
    assert_eq!(parse_i64("9223372036854775807"), Some(i64::MAX));
    assert_eq!(parse_i64("-9223372036854775808"), Some(i64::MIN));
}

#[test]
fn refuses_what_is_no_integer() {
    assert_eq!(parse_i64(""), None);
    assert_eq!(parse_i64("-"), None);
    assert_eq!(parse_i64("+"), None);
    assert_eq!(parse_i64("12a"), None);
    assert_eq!(parse_i64(" 12"), None);
    assert_eq!(parse_i64("1.0"), None);
    assert_eq!(parse_i64("1_000"), None);
    assert_eq!(parse_i64("9223372036854775808"), None);
    assert_eq!(parse_i64("-9223372036854775809"), None);
    assert_eq!(parse_i64("99999999999999999999999999"), None);
}

#[test]
fn parse_agrees_with_std() {
    for s in ["0", "-0", "+0", "42", "-42", "abc", "", "--1", "1e3", "18446744073709551615"] {
        assert_eq!(parse_i64(s), s.parse::<i64>().ok(), "{}", s);
    }
}

#[test]
fn writes_decimal_integers() {
    assert_eq!(i64_text(0), "0");
    assert_eq!(i64_text(2026), "2026");
    assert_eq!(i64_text(-1), "-1");
    assert_eq!(i64_text(i64::MAX), "9223372036854775807");
    assert_eq!(i64_text(i64::MIN), "-9223372036854775808");
    assert_eq!(u64_text(u64::MAX), "18446744073709551615");
    assert_eq!(u64_text(10), "10");
}

#[test]
fn written_integers_parse_back() {
    for n in [0i64, 1, -1, 9, 10, 99, 100, -100, 123456789, i64::MAX, i64::MIN] {
        assert_eq!(parse_i64(&i64_text(n)), Some(n));
        assert_eq!(i64_text(n), n.to_string());
    }
}

#[test]
fn compares_and_joins_texts() {
    assert!(text_eq("abc", "abc"));
    assert!(!text_eq("abc", "abd"));
    assert!(!text_eq("abc", "ab"));
    assert_eq!(append("ab", "cd"), "abcd");
    assert!(starts_with("abcdef", "abc"));
    assert!(starts_with("abc", ""));
    assert!(!starts_with("ab", "abc"));
    assert!(!starts_with("xbc", "abc"));
    assert!(starts_with("héllo", "hé"));
}

#[test]
fn trims_white_space_at_both_ends() {
    assert_eq!(trim("  a b \t\n"), "a b");
    assert_eq!(trim("a"), "a");
    assert_eq!(trim("   "), "");
    assert_eq!(trim(""), "");
    assert_eq!(trim("\u{2003}x\u{a0}"), "x");
}

#[test]
fn underscores_become_spaces() {
    assert_eq!(underscores_to_spaces("a_b__c"), "a b  c");
    assert_eq!(underscores_to_spaces(""), "");
    assert_eq!(underscores_to_spaces("é_ü"), "é ü");
}

#[test]
fn normalize_lowers_spaces_and_trims() {
    assert_eq!(normalize("  Match_Result_Prediction "), "match result prediction");
    assert_eq!(normalize("F1"), "f1");
    assert_eq!(normalize("_X_"), "x");
    assert_eq!(normalize("ÄB"), "äb");
}

#[test]
fn white_space_is_what_unicode_lists() {
    let listed = |c: char| {
        matches!(
            c as u32,
            0x09..=0x0D | 0x20 | 0x85 | 0xA0 | 0x1680 | 0x2000..=0x200A | 0x2028 | 0x2029 | 0x202F | 0x205F | 0x3000
        )
    };
    let mut seen = 0;
    for code in 0..=0x10FFFFu32 {
        if let Some(c) = char::from_u32(code) {
            let text = c.to_string();
            assert_eq!(trim(&text).is_empty(), listed(c), "U+{:04X}", code);
            if listed(c) {
                seen += 1;
            }
        }
    }
    assert_eq!(seen, 25);
}

#[test]
fn ascii_letters_are_lowered_one_for_one() {
    for code in 0..128u32 {
        let c = char::from_u32(code).unwrap();
        let text = format!("x{}x", c);
        let expected = match c {
            'A'..='Z' => format!("x{}x", char::from_u32(code + 32).unwrap()),
            '_' => "x x".to_string(),
            _ => text.clone(),
        };
        assert_eq!(normalize(&text), expected, "U+{:04X}", code);
    }
}
