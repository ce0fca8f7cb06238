use yande_dl::text::{
    ends_with, int_to_decimal, nat_to_decimal, parse_i64, parse_u64, starts_with, str_eq,
    to_lower_hex, trim,
};

#[test]
fn decimal_text_of_numbers() {
    assert_eq!(nat_to_decimal(0), "0");
    assert_eq!(nat_to_decimal(1920), "1920");
    assert_eq!(nat_to_decimal(u64::MAX), u64::MAX.to_string());
    assert_eq!(int_to_decimal(-50), "-50");
    assert_eq!(int_to_decimal(i64::MIN), i64::MIN.to_string());
    assert_eq!(int_to_decimal(i64::MAX), i64::MAX.to_string());
}

#[test]
fn parse_signed_like_std() {
    for s in ["0", "42", "+42", "-42", "007", "9223372036854775807", "-9223372036854775808"] {
        assert_eq!(parse_i64(s), s.parse::<i64>().ok(), "{}", s);
    }
    for s in ["", "+", "-", "abc", "1.5", "9223372036854775808", "-9223372036854775809", " 1", "+-1"] {
        assert_eq!(parse_i64(s), None, "{}", s);
        assert!(s.parse::<i64>().is_err());
    }
}

#[test]
fn parse_unsigned_like_std() {
    for s in ["0", "60", "+60", "18446744073709551615"] {
        assert_eq!(parse_u64(s), s.parse::<u64>().ok(), "{}", s);
    }
    for s in ["", "-0", "-1", "18446744073709551616", "1s", "Wed, 21 Oct 2015 07:28:00 GMT"] {
        assert_eq!(parse_u64(s), None, "{}", s);
        assert!(s.parse::<u64>().is_err());
    }
}

#[test]
fn hex_of_bytes() {
    assert_eq!(to_lower_hex(&vec![0x0a, 0x14, 0x1e]), "0a141e");
    assert_eq!(to_lower_hex(&vec![]), "");
    assert_eq!(to_lower_hex(&vec![0xff, 0x00]), "ff00");
}

#[test]
fn trim_matches_std() {
    for s in ["  a b  ", "\u{3000}x\u{a0}", "", "   ", "\t\nq\r", "\u{200b}y"] {
        assert_eq!(trim(s), s.trim());
    }
}

#[test]
fn prefix_suffix_and_equality() {
    assert!(starts_with("https://x", "https://"));
    assert!(!starts_with("http", "https://"));
    assert!(ends_with("yande_1.png.part", ".part"));
    assert!(!ends_with("part", ".part"));
    assert!(str_eq("初音", "初音"));
    assert!(!str_eq("a", "ab"));
}
