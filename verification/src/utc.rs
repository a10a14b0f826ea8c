//! The calls into `chrono`, on plain values: a date-time in UTC is handed over
//! as its whole seconds since the epoch and the nanoseconds past that second.

use crate::calendar::{day_in_year, day_of_second, MAX_SECOND, MIN_SECOND};
use crate::number::{digit_char, is_digit};
use chrono::{Datelike, TimeZone};
use vstd::prelude::*;

verus! {

/// What `chrono` reports when a text is not an RFC 3339 date-time.
#[verifier::external_type_specification]
#[verifier::external_body]
pub struct ExParseError(chrono::format::ParseError);

/// Whether `chrono` has a date-time in UTC for this second and these
/// nanoseconds past it.
///
/// The second lies in the years that the calendar module names. A nanosecond
/// count of a thousand million or more stands for a leap second and is
/// admitted only in the last second of a minute.
pub open spec fn representable(second: int, nano: int) -> bool {
    &&& MIN_SECOND <= second <= MAX_SECOND
    &&& 0 <= nano < 2_000_000_000
    &&& nano >= 1_000_000_000 ==> second % 60 == 59
}

/// The instant that `chrono` reads out of `text` as an RFC 3339 date-time,
/// as second and nanosecond in UTC; `None` where it reports an error.
pub uninterp spec fn rfc3339_reading(text: Seq<char>) -> Option<(int, int)>;

/// The text that `chrono` writes for an instant in UTC as RFC 3339 with three
/// fractional digits and `Z` for the offset.
pub uninterp spec fn rfc3339_millis_text(second: int, nano: int) -> Seq<char>;

/// Whether `text` ends with a point, the three digits of `millis` and `Z`.
pub open spec fn ends_with_millis_and_z(text: Seq<char>, millis: int) -> bool {
    let n = text.len();
    &&& n >= 5
    &&& text[n - 5] == '.'
    &&& text[n - 4] == digit_char(millis / 100)
    &&& text[n - 3] == digit_char(millis / 10 % 10)
    &&& text[n - 2] == digit_char(millis % 10)
    &&& text[n - 1] == 'Z'
}

/// Whether `c` can stand at place `i` of the nineteen characters
/// `YYYY-MM-DDTHH:MM:SS`, where `t` or a space may stand for the `T`.
pub open spec fn date_time_place(i: int, c: char) -> bool {
    if i == 4 || i == 7 {
        c == '-'
    } else if i == 10 {
        c == 'T' || c == 't' || c == ' '
    } else if i == 13 || i == 16 {
        c == ':'
    } else {
        is_digit(c)
    }
}

/// What every RFC 3339 date-time looks like, whatever else the grammar asks:
/// a date and a time of nineteen characters in all, and after them at least
/// one more character, the last of which is `Z`, `z` or a digit of the offset.
pub open spec fn date_time_shaped(text: Seq<char>) -> bool {
    &&& text.len() >= 20
    &&& forall|i: int| 0 <= i < 19 ==> date_time_place(i, #[trigger] text[i])
    &&& (text.last() == 'Z' || text.last() == 'z' || is_digit(text.last()))
}

/// `chrono::DateTime::parse_from_rfc3339`, its result converted to UTC and
/// taken apart by `timestamp` and `timestamp_subsec_nanos`.
///
/// Believed of it: success and the instant depend on the text alone; an
/// instant that comes out is one that `chrono` can represent; and a text that
/// is accepted is shaped like a date-time.
#[verifier::external_body]
pub(crate) fn parse_rfc3339(text: &str) -> (r: Result<(i64, u32), chrono::format::ParseError>)
    ensures
        match r {
            Ok(p) => {
                &&& rfc3339_reading(text@) == Some((p.0 as int, p.1 as int))
                &&& representable(p.0 as int, p.1 as int)
                &&& date_time_shaped(text@)
            },
            Err(_) => rfc3339_reading(text@) is None,
        },
{
    match chrono::DateTime::parse_from_rfc3339(text) {
        Ok(t) => {
            let t = chrono::DateTime::<chrono::Utc>::from(t);
            Ok((t.timestamp(), t.timestamp_subsec_nanos()))
        },
        Err(e) => Err(e),
    }
}

/// `chrono::TimeZone::timestamp_opt` on `Utc`, its result taken apart by
/// `timestamp` and `timestamp_subsec_nanos`.
///
/// Believed of it: it has a single result exactly for the representable
/// arguments, and that result holds the arguments unchanged.
#[verifier::external_body]
pub(crate) fn timestamp_opt(second: i64, nano: u32) -> (r: Option<(i64, u32)>)
    ensures
        r == if representable(second as int, nano as int) {
            Some((second, nano))
        } else {
            None
        },
{
    match chrono::Utc.timestamp_opt(second, nano) {
        chrono::LocalResult::Single(t) => Some((t.timestamp(), t.timestamp_subsec_nanos())),
        chrono::LocalResult::Ambiguous(_, _) => None,
        chrono::LocalResult::None => None,
    }
}

/// `chrono::TimeZone::timestamp_millis_opt` on `Utc`, its result taken apart
/// by `timestamp` and `timestamp_subsec_nanos`.
///
/// Believed of it: the milliseconds are split by floored division into whole
/// seconds and a rest, and there is a single result exactly if that second is
/// representable.
#[verifier::external_body]
pub(crate) fn timestamp_millis_opt(millis: i64) -> (r: Option<(i64, u32)>)
    ensures
        r == if representable(millis as int / 1000, (millis as int % 1000) * 1_000_000) {
            Some(((millis as int / 1000) as i64, ((millis as int % 1000) * 1_000_000) as u32))
        } else {
            None
        },
{
    match chrono::Utc.timestamp_millis_opt(millis) {
        chrono::LocalResult::Single(t) => Some((t.timestamp(), t.timestamp_subsec_nanos())),
        chrono::LocalResult::Ambiguous(_, _) => None,
        chrono::LocalResult::None => None,
    }
}

/// `chrono::Datelike::year` of the date-time that `chrono::DateTime::from_timestamp`
/// makes of the arguments.
///
/// Believed of it: there is a date-time exactly for the representable
/// arguments, and its year is the proleptic Gregorian year in which the day of
/// that second lies.
#[verifier::external_body]
pub(crate) fn year(second: i64, nano: u32) -> (r: Option<i32>)
    ensures
        r is Some <==> representable(second as int, nano as int),
        r matches Some(y) ==> day_in_year(day_of_second(second as int), y as int),
{
    match chrono::DateTime::from_timestamp(second, nano) {
        Some(t) => Some(t.year()),
        None => None,
    }
}

/// `chrono::DateTime::to_rfc3339_opts` with `SecondsFormat::Millis` and `Z`, on
/// the date-time that `chrono::DateTime::from_timestamp` makes of the
/// arguments.
///
/// Believed of it: there is a date-time exactly for the representable
/// arguments; the text depends on the arguments alone; and it ends with the
/// milliseconds of the second, cut off to three digits, and `Z`, where a leap
/// second shows the milliseconds past its own start.
#[verifier::external_body]
pub(crate) fn to_rfc3339_millis(second: i64, nano: u32) -> (r: Option<String>)
    ensures
        r is Some <==> representable(second as int, nano as int),
        r matches Some(s) ==> s@ == rfc3339_millis_text(second as int, nano as int),
        r matches Some(s) ==> ends_with_millis_and_z(
            s@,
            nano as int % 1_000_000_000 / 1_000_000,
        ),
{
    match chrono::DateTime::from_timestamp(second, nano) {
        Some(t) => Some(t.to_rfc3339_opts(chrono::SecondsFormat::Millis, true)),
        None => None,
    }
}

} // verus!
