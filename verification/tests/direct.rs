use chrono::{DateTime, Datelike, LocalResult, TimeZone, Utc};
use timestamp_resolver::{get_datetime, DateTimeError, Instant, NumberError};

#[derive(Debug, PartialEq)]
enum Seen {
    At(i64, u32),
    NoNumber(chrono::ParseError, std::num::IntErrorKind),
    NoInstant(chrono::ParseError, i64),
    Other,
}

fn directly(input: &str) -> Seen {
    let text = input.trim();
    let date_time = DateTime::parse_from_rfc3339(text).map(|t| t.with_timezone(&Utc));
    let number = text.parse::<i64>();
    let found = match (date_time, number) {
        (Ok(t), _) => Ok(t),
        (Err(e), Err(n)) => return Seen::NoNumber(e, n.kind().clone()),
        (Err(e), Ok(n)) => match (Utc.timestamp_opt(n, 0), Utc.timestamp_millis_opt(n)) {
            (LocalResult::Single(t), _) if t.year() < 3000 => Ok(t),
            (_, LocalResult::Single(t)) => Ok(t),
            _ => Err((e, n)),
        },
    };
    match found {
        Ok(t) => Seen::At(t.timestamp(), t.timestamp_subsec_nanos()),
        Err((e, n)) => Seen::NoInstant(e, n),
    }
}

fn kind(e: NumberError) -> std::num::IntErrorKind {
    match e {
        NumberError::Empty => std::num::IntErrorKind::Empty,
        NumberError::InvalidDigit => std::num::IntErrorKind::InvalidDigit,
        NumberError::PosOverflow => std::num::IntErrorKind::PosOverflow,
        NumberError::NegOverflow => std::num::IntErrorKind::NegOverflow,
    }
}

fn through_the_library(input: &str) -> Seen {
    match get_datetime(input) {
        Ok(t) => Seen::At(t.timestamp(), t.timestamp_subsec_nanos()),
        Err(DateTimeError::MultipleErrors(first, second)) => match (*first, *second) {
            (DateTimeError::DateFormatError(e), DateTimeError::NumberFormatError(n)) => {
                Seen::NoNumber(e, kind(n))
            }
            (DateTimeError::DateFormatError(e), DateTimeError::InvalidEpochTime(n)) => {
                Seen::NoInstant(e, n)
            }
            _ => Seen::Other,
        },
        Err(_) => Seen::Other,
    }
}

fn same(input: &str) {
    let expected = directly(input);
    assert_ne!(expected, Seen::Other);
    assert_eq!(through_the_library(input), expected, "{:?}", input);
}

fn shaped_when_accepted(text: &str) {
    if DateTime::parse_from_rfc3339(text).is_ok() {
        let chars: Vec<char> = text.chars().collect();
        assert!(chars.len() >= 20, "{:?}", text);
        for i in 0..19 {
            let fits = match i {
                4 | 7 => chars[i] == '-',
                10 => chars[i] == 'T' || chars[i] == 't' || chars[i] == ' ',
                13 | 16 => chars[i] == ':',
                _ => chars[i].is_ascii_digit(),
            };
            assert!(fits, "{:?} at {}", text, i);
        }
        let last = chars[chars.len() - 1];
        assert!(last == 'Z' || last == 'z' || last.is_ascii_digit(), "{:?}", text);
    }
}

#[test]
fn date_times_as_chrono_reads_them() {
    let dates = ["2023-02-16", "0000-01-01", "9999-12-31", "2024-02-29", "2023-02-29", "2023-13-01", "023-02-16"];
    let joints = ["T", "t", " ", "", "_"];
    let times = ["12:34:56", "00:00:00", "23:59:60", "24:00:00", "12:34", "12:34:56.7", "12:34:56.789123456789", "12:34:56."];
    let offsets = ["Z", "z", "+00:00", "-08:30", "+23:59", "+24:00", "+0100", "\u{2212}01:00", "", " Z", "UTC"];
    for date in dates {
        for joint in joints {
            for time in times {
                for offset in offsets {
                    let text = format!("{}{}{}{}", date, joint, time, offset);
                    same(&text);
                    shaped_when_accepted(&text);
                    shaped_when_accepted(&format!(" {}", text));
                    shaped_when_accepted(&format!("{} ", text));
                }
            }
        }
    }
}

#[test]
fn integers_as_chrono_takes_them() {
    let edges = [
        0i64, 1, -1, 59, 60, 999, 1000, 1676550896, 1676550896789, 32503679999, 32503680000,
        32503680001, 253402300799, 253402300800, -62167219200, -62167219201, 8210266876799,
        8210266876800, -8334601228800, -8334601228801, 8210266876799999, 8210266876800000,
        -8334601228800000, -8334601228800001, i64::MAX, i64::MIN, i64::MAX - 1, i64::MIN + 1,
    ];
    for n in edges {
        same(&n.to_string());
        same(&format!("+{}", n));
        same(&format!(" {}\n", n));
        same(&format!("{}0", n));
        same(&format!("00{}", n));
    }
    let mut n: i64 = 1;
    let mut step: i64 = 7;
    while let Some(next) = n.checked_add(step) {
        same(&n.to_string());
        same(&(-n).to_string());
        n = next;
        step = step.saturating_mul(2).saturating_add(n % 1000);
    }
}

#[test]
fn texts_that_are_neither() {
    for text in [
        "", " ", "\t \n", "not-a-date", "abc123", "not-a-timestamp", "+", "-", "12a", "1 2",
        "9223372036854775808", "-9223372036854775809", "1676550896.789", "1e9", "0x10", "now",
        "2023-02-16", "12:34:56", "Thu, 16 Feb 2023 12:34:56 GMT", "٣", "日本",
    ] {
        same(text);
    }
}

#[test]
fn instants_as_chrono_makes_them() {
    for (second, nano) in [
        (0i64, 0u32),
        (1676550896, 789_000_000),
        (59, 1_999_999_999),
        (58, 1_000_000_000),
        (-1, 1_000_000_000),
        (8210266876799, 999_999_999),
        (8210266876800, 0),
        (-8334601228800, 0),
        (-8334601228801, 0),
        (0, 2_000_000_000),
    ] {
        let ours = Instant::from_timestamp(second, nano);
        let theirs = DateTime::from_timestamp(second, nano);
        assert_eq!(ours.is_some(), theirs.is_some(), "{} {}", second, nano);
        if let (Some(a), Some(b)) = (ours, theirs) {
            assert_eq!(a.timestamp(), b.timestamp());
            assert_eq!(a.timestamp_subsec_nanos(), b.timestamp_subsec_nanos());
            assert_eq!(a.timestamp_millis(), b.timestamp_millis());
            assert_eq!(a.year(), b.year());
            assert_eq!(
                a.to_rfc3339_millis(),
                b.to_rfc3339_opts(chrono::SecondsFormat::Millis, true)
            );
        }
    }
}
