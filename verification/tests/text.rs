use amr_backend::text::{contains_char, contains_str, decimal_string, parse_unsigned, str_eq, strip_prefix, trim, uuid_string};

#[test]
fn uuid_text_is_hyphenated_lower_hex() {
    assert_eq!(uuid_string(0x67e5504410b1426f9247bb680e5fe0c8), "67e55044-10b1-426f-9247-bb680e5fe0c8");
    assert_eq!(uuid_string(0), "00000000-0000-0000-0000-000000000000");
    assert_eq!(uuid_string(u128::MAX), "ffffffff-ffff-ffff-ffff-ffffffffffff");
}

#[test]
fn decimal_text() {
    assert_eq!(decimal_string(0), "0");
    assert_eq!(decimal_string(7), "7");
    assert_eq!(decimal_string(1200), "1200");
    assert_eq!(decimal_string(u64::MAX), "18446744073709551615");
}

#[test]
fn unsigned_parsing_follows_the_standard_parser() {
    for s in ["0", "42", "+42", "007", "65535", "65536", "", "+", "-1", " 1", "1a", "99999999999999999999"] {
        assert_eq!(parse_unsigned(s, u16::MAX as u64), s.parse::<u16>().ok().map(|v| v as u64), "{s}");
        assert_eq!(parse_unsigned(s, u64::MAX), s.parse::<u64>().ok(), "{s}");
    }
}

#[test]
fn trimming_follows_the_standard_trim() {
    for s in ["", "  ", " a b ", "\t{\"x\":1}\r\n", "\u{3000}x\u{2028}", "abc"] {
        assert_eq!(trim(s), s.trim());
    }
}

#[test]
fn substring_search() {
    assert!(contains_str("a..b", ".."));
    assert!(!contains_str("a.b", ".."));
    assert!(contains_str("", ""));
    assert!(contains_char("a/b", '/'));
    assert!(!contains_char("ab", '/'));
    assert!(str_eq("x", "x") && !str_eq("x", "y"));
    assert_eq!(strip_prefix("Bearer t", "Bearer "), Some("t".to_string()));
    assert_eq!(strip_prefix("Bear", "Bearer "), None);
}
