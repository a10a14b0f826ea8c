//! Resolving a text of unknown format to an instant: first as an ISO 8601
//! date-time, then as a count of seconds or milliseconds since the epoch.

use crate::calendar::{first_second_of_year, lemma_second_before_year, MAX_SECOND, MIN_SECOND};
use crate::error::{DateTimeError, Failure};
use crate::instant::{Instant, Moment};
use crate::number::{
    decimal_reading, decimal_text, lemma_decimal_shape, lemma_decimal_text_reads_back, parse_i64,
    NumberError,
};
use crate::text::{
    all_white_space, lemma_trimmed_is_clean, lemma_trimmed_padded, lemma_trimmed_unchanged, trim,
    trimmed,
};
use crate::utc;
use vstd::prelude::*;

verus! {

/// An integer is read as seconds only if that instant lies in a year before
/// this one; otherwise it is read as milliseconds.
pub const CUTOFF_YEAR: i32 = 3000;

/// The first second of `CUTOFF_YEAR`, counted from the epoch.
pub const CUTOFF_SECOND: i64 = 32_503_680_000;

/// What a result stands for.
pub open spec fn outcome(r: Result<Instant, DateTimeError>) -> Result<Moment, Failure> {
    match r {
        Ok(t) => Ok(t@),
        Err(e) => Err(e@),
    }
}

/// What an optional instant stands for.
pub open spec fn candidate(t: Option<Instant>) -> Option<Moment> {
    match t {
        Some(t) => Some(t@),
        None => None,
    }
}

/// The moment that `text` denotes as an ISO 8601 date-time with a `Z` or a
/// numeric offset, if it is one.
///
/// The grammar is that of the date-time parser. What is said of it here is
/// that a date-time is shaped like one and denotes a representable moment.
pub open spec fn date_time_reading(text: Seq<char>) -> Option<Moment> {
    match utc::rfc3339_reading(text) {
        Some(p) => if utc::date_time_shaped(text) && utc::representable(p.0, p.1) {
            Some(Moment { second: p.0, nano: p.1 })
        } else {
            None
        },
        None => None,
    }
}

/// The moment `n` seconds after the epoch, if it is representable.
pub open spec fn seconds_candidate(n: int) -> Option<Moment> {
    if Moment::of_seconds(n).representable() {
        Some(Moment::of_seconds(n))
    } else {
        None
    }
}

/// The moment `n` milliseconds after the epoch, if it is representable.
pub open spec fn millis_candidate(n: int) -> Option<Moment> {
    if Moment::of_millis(n).representable() {
        Some(Moment::of_millis(n))
    } else {
        None
    }
}

/// The choice between the two readings of the integer `value`: the seconds
/// reading if it exists and lies in a year before `CUTOFF_YEAR`, else the
/// milliseconds reading if it exists, else a failure that carries `value`.
pub open spec fn selection(value: int, seconds: Option<Moment>, millis: Option<Moment>) -> Result<
    Moment,
    Failure,
> {
    if seconds is Some && seconds->0.year() < CUTOFF_YEAR {
        Ok(seconds->0)
    } else if millis is Some {
        Ok(millis->0)
    } else {
        Err(Failure::InvalidEpochTime(value))
    }
}

/// The choice between two instants that were made of the integer `value`, one
/// taking it for seconds and one for milliseconds, where they exist.
pub open spec fn selected(value: i64, seconds: Option<Instant>, millis: Option<Instant>) -> Result<
    Instant,
    DateTimeError,
> {
    if seconds is Some && seconds->0@.year() < CUTOFF_YEAR {
        Ok(seconds->0)
    } else if millis is Some {
        Ok(millis->0)
    } else {
        Err(DateTimeError::InvalidEpochTime(value))
    }
}

/// What `text` resolves to as an ISO 8601 date-time.
pub open spec fn iso_resolution(text: Seq<char>) -> Result<Moment, Failure> {
    match date_time_reading(text) {
        Some(m) => Ok(m),
        None => Err(Failure::DateFormat),
    }
}

/// What `text` resolves to as a count of seconds or milliseconds.
pub open spec fn epoch_resolution(text: Seq<char>) -> Result<Moment, Failure> {
    match decimal_reading(text) {
        Ok(n) => selection(n, seconds_candidate(n), millis_candidate(n)),
        Err(e) => Err(Failure::NumberFormat(e)),
    }
}

/// The two attempts put together: the date-time reading wins, the numeric
/// reading comes second, and two failures are reported as one that holds both.
pub open spec fn combination(iso: Result<Moment, Failure>, epoch: Result<Moment, Failure>) -> Result<
    Moment,
    Failure,
> {
    match iso {
        Ok(m) => Ok(m),
        Err(first) => match epoch {
            Ok(m) => Ok(m),
            Err(second) => Err(Failure::Multiple(Box::new(first), Box::new(second))),
        },
    }
}

/// The result of two attempts put together, with the instant or the two
/// failures as the attempts gave them.
pub open spec fn combined(
    iso: Result<Instant, DateTimeError>,
    epoch: Result<Instant, DateTimeError>,
) -> Result<Instant, DateTimeError> {
    match iso {
        Ok(t) => Ok(t),
        Err(first) => match epoch {
            Ok(t) => Ok(t),
            Err(second) => Err(DateTimeError::MultipleErrors(Box::new(first), Box::new(second))),
        },
    }
}

/// What `input` resolves to: its white space trimmed, then both attempts.
pub open spec fn resolution(input: Seq<char>) -> Result<Moment, Failure> {
    combination(iso_resolution(trimmed(input)), epoch_resolution(trimmed(input)))
}

/// The cut between the two readings of an integer, in seconds: an instant
/// lies in a year before `CUTOFF_YEAR` exactly if it comes before
/// `CUTOFF_SECOND`.
pub proof fn lemma_cutoff_second(n: int)
    ensures
        CUTOFF_SECOND == first_second_of_year(CUTOFF_YEAR as int),
        Moment::of_seconds(n).year() < CUTOFF_YEAR <==> n < CUTOFF_SECOND,
{
    lemma_second_before_year(n, CUTOFF_YEAR as int);
}

/// The reading of an integer by its size: seconds from `MIN_SECOND` up to
/// `CUTOFF_SECOND`, milliseconds elsewhere as far as the whole seconds in them
/// are representable, and beyond that no instant.
pub proof fn lemma_epoch_ranges(n: int)
    ensures
        selection(n, seconds_candidate(n), millis_candidate(n)) == if MIN_SECOND <= n
            < CUTOFF_SECOND {
            Ok::<Moment, Failure>(Moment::of_seconds(n))
        } else if MIN_SECOND * 1000 <= n <= MAX_SECOND * 1000 + 999 {
            Ok(Moment::of_millis(n))
        } else {
            Err(Failure::InvalidEpochTime(n))
        },
{
    lemma_cutoff_second(n);
}

/// An ISO 8601 date-time has no white space at its ends.
pub proof fn lemma_date_time_trimmed(text: Seq<char>)
    requires
        date_time_reading(text) is Some,
    ensures
        trimmed(text) == text,
{
    assert(utc::date_time_place(0, text[0]));
    lemma_trimmed_unchanged(text);
}

/// A text that is an ISO 8601 date-time resolves to the moment it denotes,
/// whatever it would say as an integer.
pub proof fn lemma_date_time_resolves(text: Seq<char>)
    requires
        date_time_reading(text) is Some,
    ensures
        resolution(text) == Ok::<Moment, Failure>(date_time_reading(text)->0),
{
    lemma_date_time_trimmed(text);
}

/// White space before and after a text does not change what it resolves to.
pub proof fn lemma_white_space_tolerance(before: Seq<char>, input: Seq<char>, after: Seq<char>)
    requires
        all_white_space(before),
        all_white_space(after),
    ensures
        resolution(before + input + after) == resolution(input),
{
    lemma_trimmed_padded(before, input, after);
}

/// An ISO 8601 date-time with white space before it, after it or both
/// resolves to the moment that the date-time denotes, as it does alone.
pub proof fn lemma_padded_date_time(before: Seq<char>, text: Seq<char>, after: Seq<char>)
    requires
        date_time_reading(text) is Some,
        all_white_space(before),
        all_white_space(after),
    ensures
        resolution(before + text + after) == resolution(text),
        resolution(before + text + after) == Ok::<Moment, Failure>(date_time_reading(text)->0),
{
    lemma_white_space_tolerance(before, text, after);
    lemma_date_time_resolves(text);
}

/// A text that reads as an integer is no ISO 8601 date-time.
pub proof fn lemma_integer_is_no_date_time(text: Seq<char>)
    requires
        decimal_reading(text) is Ok,
    ensures
        date_time_reading(text) is None,
{
    lemma_decimal_shape(text);
    if text.len() >= 20 {
        assert(!utc::date_time_place(13, text[13]));
    }
}

/// A text that reads as the integer `n`, with or without white space around
/// it, resolves to the chosen reading of `n`; where `n` has none, the failure
/// holds that of the date-time attempt and that of the integer.
pub proof fn lemma_integer_resolution(input: Seq<char>, n: int)
    requires
        decimal_reading(trimmed(input)) == Ok::<int, NumberError>(n),
    ensures
        resolution(input) == match selection(n, seconds_candidate(n), millis_candidate(n)) {
            Ok(m) => Ok::<Moment, Failure>(m),
            Err(e) => Err(Failure::Multiple(Box::new(Failure::DateFormat), Box::new(e))),
        },
{
    lemma_integer_is_no_date_time(trimmed(input));
}

/// An integer written in base ten is left as it is by trimming.
pub proof fn lemma_decimal_text_trimmed(n: int)
    requires
        i64::MIN <= n <= i64::MAX,
    ensures
        trimmed(decimal_text(n)) == decimal_text(n),
{
    lemma_decimal_text_reads_back(n);
    lemma_decimal_shape(decimal_text(n));
    lemma_trimmed_unchanged(decimal_text(n));
}

/// An integer whose seconds reading is representable and lies in a year
/// before `CUTOFF_YEAR` resolves, written in base ten, to that many seconds
/// after the epoch.
pub proof fn lemma_seconds_reading(n: int)
    requires
        i64::MIN <= n <= i64::MAX,
        Moment::of_seconds(n).representable(),
        Moment::of_seconds(n).year() < CUTOFF_YEAR,
    ensures
        resolution(decimal_text(n)) == Ok::<Moment, Failure>(Moment::of_seconds(n)),
{
    lemma_decimal_text_trimmed(n);
    lemma_decimal_text_reads_back(n);
    lemma_integer_resolution(decimal_text(n), n);
}

/// An integer whose seconds reading is not representable, or lies in
/// `CUTOFF_YEAR` or later, resolves, written in base ten, to that many
/// milliseconds after the epoch, if that moment is representable.
pub proof fn lemma_millis_reading(n: int)
    requires
        i64::MIN <= n <= i64::MAX,
        !(Moment::of_seconds(n).representable() && Moment::of_seconds(n).year() < CUTOFF_YEAR),
        Moment::of_millis(n).representable(),
    ensures
        resolution(decimal_text(n)) == Ok::<Moment, Failure>(Moment::of_millis(n)),
{
    lemma_decimal_text_trimmed(n);
    lemma_decimal_text_reads_back(n);
    lemma_integer_resolution(decimal_text(n), n);
}

/// A text of white space alone, the empty text among them, fails both
/// attempts: it is no date-time, and as an integer it is empty.
pub proof fn lemma_blank_input(input: Seq<char>)
    requires
        all_white_space(input),
    ensures
        resolution(input) == Err::<Moment, Failure>(
            Failure::Multiple(
                Box::new(Failure::DateFormat),
                Box::new(Failure::NumberFormat(NumberError::Empty)),
            ),
        ),
{
    lemma_trimmed_is_clean(input);
}

/// A failure always holds both attempts: first that the text is no
/// date-time, then why it is no integer or why the integer is no instant.
pub proof fn lemma_failure_is_combined(input: Seq<char>)
    requires
        resolution(input) is Err,
    ensures
        resolution(input) matches Err(Failure::Multiple(first, second)) && *first
            == Failure::DateFormat && (*second is NumberFormat || *second is InvalidEpochTime),
{
}

/// Reads `input` as an ISO 8601 date-time and converts it to UTC.
pub fn iso_to_datetime(input: &str) -> (r: Result<Instant, DateTimeError>)
    ensures
        outcome(r) == iso_resolution(input@),
{
    match utc::parse_rfc3339(input) {
        Ok(p) => Ok(Instant::from_parts(p.0, p.1)),
        Err(e) => Err(DateTimeError::DateFormatError(e)),
    }
}

/// Chooses between the seconds reading and the milliseconds reading of the
/// integer `value`.
pub fn select_epoch_instant(value: i64, seconds: Option<Instant>, millis: Option<Instant>) -> (r:
    Result<Instant, DateTimeError>)
    ensures
        r == selected(value, seconds, millis),
        outcome(r) == selection(value as int, candidate(seconds), candidate(millis)),
{
    if let Some(t) = seconds {
        if t.year() < CUTOFF_YEAR {
            return Ok(t);
        }
    }
    match millis {
        Some(t) => Ok(t),
        None => Err(DateTimeError::InvalidEpochTime(value)),
    }
}

/// Reads `input` as a signed decimal integer and takes it for seconds or for
/// milliseconds since the epoch.
pub fn epoch_to_datetime(input: &str) -> (r: Result<Instant, DateTimeError>)
    ensures
        outcome(r) == epoch_resolution(input@),
{
    match parse_i64(input) {
        Ok(value) => select_epoch_instant(
            value,
            Instant::from_timestamp(value, 0),
            Instant::from_timestamp_millis(value),
        ),
        Err(e) => Err(DateTimeError::NumberFormatError(e)),
    }
}

/// Puts the two attempts together.
pub fn combine(iso: Result<Instant, DateTimeError>, epoch: Result<Instant, DateTimeError>) -> (r:
    Result<Instant, DateTimeError>)
    ensures
        r == combined(iso, epoch),
        outcome(r) == combination(outcome(iso), outcome(epoch)),
{
    match iso {
        Ok(t) => Ok(t),
        Err(first) => match epoch {
            Ok(t) => Ok(t),
            Err(second) => Err(DateTimeError::MultipleErrors(Box::new(first), Box::new(second))),
        },
    }
}

/// Resolves `input` to an instant.
pub fn get_datetime(input: &str) -> (r: Result<Instant, DateTimeError>)
    ensures
        outcome(r) == resolution(input@),
{
    let text = trim(input);
    combine(iso_to_datetime(text), epoch_to_datetime(text))
}

} // verus!
