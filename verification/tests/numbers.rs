use std::num::IntErrorKind;
use timestamp_resolver::number::{is_decimal_digit, parse_i64};
use timestamp_resolver::NumberError;

fn by_std(text: &str) -> Result<i64, NumberError> {
    match text.parse::<i64>() {
        Ok(v) => Ok(v),
        Err(e) => Err(match e.kind() {
            IntErrorKind::Empty => NumberError::Empty,
            IntErrorKind::InvalidDigit => NumberError::InvalidDigit,
            IntErrorKind::PosOverflow => NumberError::PosOverflow,
            IntErrorKind::NegOverflow => NumberError::NegOverflow,
            other => panic!("{:?}", other),
        }),
    }
}

#[test]
fn plain_integers() {
    assert_eq!(parse_i64("0"), Ok(0));
    assert_eq!(parse_i64("7"), Ok(7));
    assert_eq!(parse_i64("1676550896"), Ok(1676550896));
    assert_eq!(parse_i64("1676550896789"), Ok(1676550896789));
    assert_eq!(parse_i64("9223372036854775807"), Ok(i64::MAX));
}

#[test]
fn signed_integers() {
    assert_eq!(parse_i64("-1"), Ok(-1));
    assert_eq!(parse_i64("+1"), Ok(1));
    assert_eq!(parse_i64("-0"), Ok(0));
    assert_eq!(parse_i64("+0"), Ok(0));
    assert_eq!(parse_i64("-9223372036854775808"), Ok(i64::MIN));
    assert_eq!(parse_i64("+9223372036854775807"), Ok(i64::MAX));
}

#[test]
fn leading_zeros() {
    assert_eq!(parse_i64("007"), Ok(7));
    assert_eq!(parse_i64("-000000000000000000000000000000042"), Ok(-42));
    assert_eq!(parse_i64("0000000000000000000009223372036854775807"), Ok(i64::MAX));
}

#[test]
fn empty_text() {
    assert_eq!(parse_i64(""), Err(NumberError::Empty));
}

#[test]
fn lone_sign() {
    assert_eq!(parse_i64("+"), Err(NumberError::InvalidDigit));
    assert_eq!(parse_i64("-"), Err(NumberError::InvalidDigit));
}

#[test]
fn invalid_digits() {
    for text in [
        "a", "12a", "a12", "1 2", " 12", "12 ", "1_000", "1.5", "1e5", "0x10", "--1", "+-1", "-+1",
        "1-", "١٢٣", "１２", "12\u{0}", "٣", "²",
    ] {
        assert_eq!(parse_i64(text), Err(NumberError::InvalidDigit), "{:?}", text);
    }
}

#[test]
fn overflow_above() {
    assert_eq!(parse_i64("9223372036854775808"), Err(NumberError::PosOverflow));
    assert_eq!(parse_i64("+9223372036854775808"), Err(NumberError::PosOverflow));
    assert_eq!(parse_i64("92233720368547758070"), Err(NumberError::PosOverflow));
    assert_eq!(parse_i64("99999999999999999999999999"), Err(NumberError::PosOverflow));
}

#[test]
fn overflow_below() {
    assert_eq!(parse_i64("-9223372036854775809"), Err(NumberError::NegOverflow));
    assert_eq!(parse_i64("-92233720368547758080"), Err(NumberError::NegOverflow));
    assert_eq!(parse_i64("-99999999999999999999999999"), Err(NumberError::NegOverflow));
}

#[test]
fn overflow_is_seen_before_a_later_invalid_digit() {
    assert_eq!(parse_i64("9223372036854775808x"), Err(NumberError::PosOverflow));
    assert_eq!(parse_i64("-9223372036854775809x"), Err(NumberError::NegOverflow));
    assert_eq!(parse_i64("99999999999999999999 "), Err(NumberError::PosOverflow));
}

#[test]
fn invalid_digit_right_after_the_largest_numbers() {
    assert_eq!(parse_i64("9223372036854775807x"), Err(NumberError::InvalidDigit));
    assert_eq!(parse_i64("-9223372036854775808x"), Err(NumberError::InvalidDigit));
    assert_eq!(parse_i64("922337203685477580x7"), Err(NumberError::InvalidDigit));
}

#[test]
fn same_as_the_standard_library() {
    let pieces = [
        "", "+", "-", "0", "1", "9", "00", "12", "x", " ", "_", ".", "+1", "-1", "+-", "٣", "é",
        "922337203685477580", "9223372036854775807", "9223372036854775808", "-9223372036854775808",
        "-9223372036854775809", "18446744073709551616", "99999999999999999999",
    ];
    for a in pieces {
        for b in pieces {
            for c in ["", "0", "7", "8", "9", "x", "-"] {
                let text = format!("{}{}{}", a, b, c);
                assert_eq!(parse_i64(&text), by_std(&text), "{:?}", text);
            }
        }
    }
}

#[test]
fn written_integers_read_back() {
    let mut n: i64 = i64::MIN;
    let mut step: i64 = 1;
    loop {
        assert_eq!(parse_i64(&n.to_string()), Ok(n));
        match n.checked_add(step) {
            Some(next) => n = next,
            None => break,
        }
        step = step.saturating_mul(3);
    }
    let mut n: i64 = i64::MAX;
    let mut step: i64 = 1;
    loop {
        assert_eq!(parse_i64(&n.to_string()), Ok(n));
        match n.checked_sub(step) {
            Some(next) => n = next,
            None => break,
        }
        step = step.saturating_mul(3);
    }
    for n in -1000i64..=1000 {
        assert_eq!(parse_i64(&n.to_string()), Ok(n));
    }
}

#[test]
fn ascii_digits_only() {
    for code in 0..=0x10FFFFu32 {
        if let Some(c) = char::from_u32(code) {
            assert_eq!(is_decimal_digit(c), c.is_ascii_digit(), "{:x}", code);
        }
    }
}
