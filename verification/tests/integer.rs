use tombi::integer::{
    is_usize, parse_i64_radix, try_from_binary, try_from_decimal, try_from_hexadecimal,
    try_from_octal, ParseIntError,
};

#[test]
fn hexadecimal_literal() {
    assert_eq!(try_from_hexadecimal("0xFF"), Ok(255));
    assert_eq!(try_from_hexadecimal("0xdead_BEEF"), Ok(0xdead_beef));
    assert_eq!(try_from_hexadecimal("0x7fff_ffff_ffff_ffff"), Ok(i64::MAX));
}

#[test]
fn decimal_literal() {
    assert_eq!(try_from_decimal("1_000"), Ok(1000));
    assert_eq!(try_from_decimal("+17"), Ok(17));
    assert_eq!(try_from_decimal("-17"), Ok(-17));
    assert_eq!(try_from_decimal("0"), Ok(0));
    assert_eq!(try_from_decimal("-0"), Ok(0));
    assert_eq!(try_from_decimal("007"), Ok(7));
    assert_eq!(try_from_decimal("9223372036854775807"), Ok(i64::MAX));
    assert_eq!(try_from_decimal("-9223372036854775808"), Ok(i64::MIN));
    assert_eq!(try_from_decimal("-9_223_372_036_854_775_808"), Ok(i64::MIN));
}

#[test]
fn binary_literal() {
    assert_eq!(try_from_binary("0b101"), Ok(5));
    assert_eq!(try_from_binary("0b1111_0000"), Ok(240));
}

#[test]
fn octal_literal() {
    assert_eq!(try_from_octal("0o755"), Ok(493));
    assert_eq!(try_from_octal("0o0"), Ok(0));
}

#[test]
fn malformed_digits_are_errors() {
    assert_eq!(try_from_binary("0b102"), Err(ParseIntError::InvalidDigit));
    assert_eq!(try_from_octal("0o8"), Err(ParseIntError::InvalidDigit));
    assert_eq!(try_from_hexadecimal("0xG"), Err(ParseIntError::InvalidDigit));
    assert_eq!(try_from_decimal("12a"), Err(ParseIntError::InvalidDigit));
    assert_eq!(try_from_decimal("1.5"), Err(ParseIntError::InvalidDigit));
    assert_eq!(try_from_decimal(" 1"), Err(ParseIntError::InvalidDigit));
    assert_eq!(try_from_decimal("+"), Err(ParseIntError::InvalidDigit));
    assert_eq!(try_from_decimal("-"), Err(ParseIntError::InvalidDigit));
    assert_eq!(try_from_decimal("--1"), Err(ParseIntError::InvalidDigit));
    assert_eq!(try_from_decimal("\u{0661}"), Err(ParseIntError::InvalidDigit));
}

#[test]
fn empty_digits_are_errors() {
    assert_eq!(try_from_decimal(""), Err(ParseIntError::Empty));
    assert_eq!(try_from_decimal("_"), Err(ParseIntError::Empty));
    assert_eq!(try_from_binary("0b"), Err(ParseIntError::Empty));
    assert_eq!(try_from_hexadecimal("0x__"), Err(ParseIntError::Empty));
    assert_eq!(try_from_octal("0"), Err(ParseIntError::Empty));
    assert_eq!(try_from_octal(""), Err(ParseIntError::Empty));
    assert_eq!(try_from_binary("\u{e9}"), Err(ParseIntError::Empty));
    assert_eq!(try_from_binary("a\u{e9}1"), Err(ParseIntError::Empty));
}

#[test]
fn overflow_is_an_error() {
    assert_eq!(
        try_from_decimal("9223372036854775808"),
        Err(ParseIntError::PosOverflow)
    );
    assert_eq!(
        try_from_decimal("-9223372036854775809"),
        Err(ParseIntError::NegOverflow)
    );
    assert_eq!(
        try_from_hexadecimal("0x8000_0000_0000_0000"),
        Err(ParseIntError::PosOverflow)
    );
    assert_eq!(
        try_from_decimal("99999999999999999999999x"),
        Err(ParseIntError::PosOverflow)
    );
    assert_eq!(
        try_from_decimal("9x9999999999999999999999"),
        Err(ParseIntError::InvalidDigit)
    );
}

#[test]
fn agrees_with_the_standard_library() {
    let samples = [
        "", "0", "-", "+", "+0", "-1", "12", "zz", "Zz", "7f", "-7F", "+10", "1_0", " 1",
        "9223372036854775807", "9223372036854775808", "-9223372036854775808",
        "-9223372036854775809", "1y2p0ij32e8e7", "1y2p0ij32e8e8", "-1y2p0ij32e8e8",
        "-1y2p0ij32e8e9", "000000000000000000000000000000001", "1\u{e9}", "١",
    ];
    for radix in [2u32, 8, 10, 16, 36] {
        for text in samples {
            let expected = i64::from_str_radix(text, radix).map_err(|error| {
                match error.kind() {
                    std::num::IntErrorKind::Empty => ParseIntError::Empty,
                    std::num::IntErrorKind::InvalidDigit => ParseIntError::InvalidDigit,
                    std::num::IntErrorKind::PosOverflow => ParseIntError::PosOverflow,
                    std::num::IntErrorKind::NegOverflow => ParseIntError::NegOverflow,
                    _ => unreachable!(),
                }
            });
            assert_eq!(parse_i64_radix(text, radix), expected, "{text:?} in {radix}");
        }
    }
}

#[test]
fn index_text() {
    for text in ["0", "5", "+5", "0012", "18446744073709551615"] {
        assert!(is_usize(text), "{text}");
        assert!(text.parse::<usize>().is_ok());
    }
    for text in ["", "+", "-1", "1 ", "18446744073709551616", "a", "1_0", "*"] {
        assert!(!is_usize(text), "{text}");
        assert!(text.parse::<usize>().is_err());
    }
}
