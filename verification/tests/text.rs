use screenhistory::text::{contains, parse_u32, parse_u64, push_decimal, trim, IntErrorKind};

#[test]
fn trim_matches_std() {
    for s in ["", "  ", " a ", "\t15m\n", "\u{3000}x\u{2028}", "a b", "\u{85}"] {
        assert_eq!(trim(s), s.trim());
    }
}

#[test]
fn parse_u64_matches_std() {
    for s in [
        "0",
        "900",
        "+7",
        "",
        "+",
        "-",
        "-5",
        "1a",
        " 1",
        "18446744073709551615",
        "18446744073709551616",
        "99999999999999999999x",
        "00012",
    ] {
        assert_eq!(parse_u64(s).ok(), s.parse::<u64>().ok(), "{s:?}");
    }
    assert_eq!(parse_u64(""), Err(IntErrorKind::Empty));
    assert_eq!(parse_u64("+"), Err(IntErrorKind::InvalidDigit));
    assert_eq!(parse_u64("1x"), Err(IntErrorKind::InvalidDigit));
    assert_eq!(
        parse_u64("18446744073709551616"),
        Err(IntErrorKind::PosOverflow)
    );
}

#[test]
fn parse_u32_matches_std() {
    for s in ["23", "4294967295", "4294967296", "", "x"] {
        assert_eq!(parse_u32(s).ok(), s.parse::<u32>().ok(), "{s:?}");
    }
}

#[test]
fn decimal_matches_display() {
    for n in [0u64, 7, 10, 3600, u64::MAX] {
        let mut out = String::from("n=");
        push_decimal(&mut out, n);
        assert_eq!(out, format!("n={n}"));
    }
}

#[test]
fn contains_matches_std() {
    for (h, n) in [
        ("Operation not permitted", "permitted"),
        ("abc", ""),
        ("", "a"),
        ("ab", "abc"),
        ("aab", "ab"),
    ] {
        assert_eq!(contains(h, n), h.contains(n));
    }
}
