use datafall::decimal::{parse_u64, u64_to_decimal, IntErrorKind};

fn std_kind(text: &str) -> Result<u64, IntErrorKind> {
    match text.parse::<u64>() {
        Ok(v) => Ok(v),
        Err(e) => match e.kind() {
            std::num::IntErrorKind::Empty => Err(IntErrorKind::Empty),
            std::num::IntErrorKind::InvalidDigit => Err(IntErrorKind::InvalidDigit),
            std::num::IntErrorKind::PosOverflow => Err(IntErrorKind::PosOverflow),
            other => panic!("unexpected kind {:?}", other),
        },
    }
}

#[test]
fn decimal_formatting_matches_display() {
    for n in [0u64, 1, 9, 10, 11, 99, 100, 1234567890, u64::MAX - 1, u64::MAX] {
        assert_eq!(u64_to_decimal(n), n.to_string());
    }
}

#[test]
fn decimal_formatting_exact_values() {
    assert_eq!(u64_to_decimal(0), "0");
    assert_eq!(u64_to_decimal(1048576), "1048576");
    assert_eq!(u64_to_decimal(u64::MAX), "18446744073709551615");
}

#[test]
fn parse_matches_std_parse() {
    let cases = [
        "", "+", "-", "0", "+0", "-0", "00012", "42", "+42", " 42", "42 ", "4 2", "1a",
        "18446744073709551615", "18446744073709551616", "99999999999999999999",
        "999999999999999999999x", "1844674407370955161x", "x99999999999999999999",
        "+18446744073709551615", "++1", "+-1", "0x10", "\t1",
    ];
    for case in cases {
        assert_eq!(parse_u64(case.as_bytes()), std_kind(case), "case {:?}", case);
    }
}

#[test]
fn parse_error_kinds() {
    assert_eq!(parse_u64(b""), Err(IntErrorKind::Empty));
    assert_eq!(parse_u64(b"12x"), Err(IntErrorKind::InvalidDigit));
    assert_eq!(parse_u64(b"-1"), Err(IntErrorKind::InvalidDigit));
    assert_eq!(parse_u64(b"18446744073709551616"), Err(IntErrorKind::PosOverflow));
    assert_eq!(parse_u64(b"+7"), Ok(7));
}

#[test]
fn parse_of_formatted_number_round_trips() {
    for n in [0u64, 7, 10, 65536, 123456789012, u64::MAX] {
        let text = u64_to_decimal(n);
        assert_eq!(parse_u64(text.as_bytes()), Ok(n));
    }
}
