use action_pull_request_lock::number::{decimal_string, parse_u64, ParseNumberError};
use action_pull_request_lock::text::{replace_spaces, same_chars, trim, white_space};

#[test]
fn parses_plain_and_signed_numbers() {
    assert_eq!(parse_u64("0"), Ok(0));
    assert_eq!(parse_u64("42"), Ok(42));
    assert_eq!(parse_u64("+42"), Ok(42));
    assert_eq!(parse_u64("007"), Ok(7));
    assert_eq!(parse_u64("18446744073709551615"), Ok(u64::MAX));
}

#[test]
fn refuses_what_std_refuses() {
    assert_eq!(parse_u64(""), Err(ParseNumberError::Empty));
    assert_eq!(parse_u64("+"), Err(ParseNumberError::InvalidDigit));
    assert_eq!(parse_u64("-"), Err(ParseNumberError::InvalidDigit));
    assert_eq!(parse_u64("-5"), Err(ParseNumberError::InvalidDigit));
    assert_eq!(parse_u64("4 2"), Err(ParseNumberError::InvalidDigit));
    assert_eq!(parse_u64("١٢"), Err(ParseNumberError::InvalidDigit));
    assert_eq!(parse_u64("18446744073709551616"), Err(ParseNumberError::Overflow));
    assert_eq!(parse_u64("99999999999999999999x"), Err(ParseNumberError::Overflow));
    assert_eq!(parse_u64("1x99999999999999999999"), Err(ParseNumberError::InvalidDigit));
}

#[test]
fn agrees_with_std_parse() {
    for s in [
        "", "+", "-", "0", "+0", "-0", "12", "+12", "++1", "1+", " 1", "1 ", "abc",
        "18446744073709551615", "18446744073709551616", "99999999999999999999x",
        "0000000000000000000000000001",
    ] {
        let ours = parse_u64(s);
        let theirs = s.parse::<u64>();
        match (ours, theirs) {
            (Ok(a), Ok(b)) => assert_eq!(a, b, "{s:?}"),
            (Err(e), Err(f)) => assert_eq!(e.description(), f.to_string(), "{s:?}"),
            (a, b) => panic!("{s:?}: {a:?} vs {b:?}"),
        }
    }
}

#[test]
fn decimal_round_trip() {
    for n in [0u64, 1, 9, 10, 99, 100, 12345, u64::MAX - 1, u64::MAX] {
        let s = decimal_string(n);
        assert_eq!(s, n.to_string());
        assert_eq!(parse_u64(&s), Ok(n));
    }
}

#[test]
fn trims_unicode_white_space() {
    assert_eq!(trim("  42\t\n"), "42");
    assert_eq!(trim("\u{a0}\u{3000}x y\u{2009}"), "x y");
    assert_eq!(trim("   "), "");
    assert_eq!(trim(""), "");
    for s in ["\u{85}a\u{200a}", " \u{1680}b", "c\u{2028}\u{2029}\u{202f}\u{205f}"] {
        assert_eq!(trim(s), s.trim());
    }
    assert!(white_space('\u{b}'));
    assert!(!white_space('\u{200b}'));
    assert!(!white_space('x'));
}

#[test]
fn spaces_become_underscores() {
    assert_eq!(replace_spaces("lock reason"), "lock_reason");
    assert_eq!(replace_spaces(" a  b "), "_a__b_");
    assert_eq!(replace_spaces("tab\tstays"), "tab\tstays");
    assert!(same_chars("héllo", "héllo"));
    assert!(!same_chars("héllo", "hello"));
    assert!(!same_chars("ab", "abc"));
}
