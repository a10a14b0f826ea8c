//! The proleptic Gregorian calendar, counted in days and in seconds from
//! 1970-01-01T00:00:00Z.

use vstd::prelude::*;

verus! {

/// Seconds in a day; leap seconds are not counted.
pub const SECONDS_PER_DAY: i64 = 86_400;

/// The first calendar year in which an instant can lie.
pub const MIN_YEAR: i32 = -262_143;

/// The last calendar year in which an instant can lie.
pub const MAX_YEAR: i32 = 262_142;

/// The first second of `MIN_YEAR`, counted from the epoch.
pub const MIN_SECOND: i64 = -8_334_601_228_800;

/// The last second of `MAX_YEAR`, counted from the epoch.
pub const MAX_SECOND: i64 = 8_210_266_876_799;

/// Whether `y` is a leap year.
pub open spec fn leap_year(y: int) -> bool {
    y % 4 == 0 && (y % 100 != 0 || y % 400 == 0)
}

/// The leap years from year 1 to year `y`, both included; for `y` below 1,
/// minus the leap years from `y + 1` to 0.
pub open spec fn leap_years_through(y: int) -> int {
    y / 4 - y / 100 + y / 400
}

/// The days from 1970-01-01 to January 1 of year `y`; negative before 1970.
pub open spec fn days_before_year(y: int) -> int {
    365 * (y - 1970) + leap_years_through(y - 1) - leap_years_through(1969)
}

/// Whether day `d`, counted from 1970-01-01, lies in year `y`.
pub open spec fn day_in_year(d: int, y: int) -> bool {
    days_before_year(y) <= d < days_before_year(y + 1)
}

/// The calendar year in which day `d`, counted from 1970-01-01, lies.
pub open spec fn year_of_day(d: int) -> int {
    choose|y: int| day_in_year(d, y)
}

/// The day, counted from 1970-01-01, in which second `s` lies.
pub open spec fn day_of_second(s: int) -> int {
    s / (SECONDS_PER_DAY as int)
}

/// The calendar year in which second `s`, counted from the epoch, lies.
pub open spec fn year_of_second(s: int) -> int {
    year_of_day(day_of_second(s))
}

/// The first second of year `y`, counted from the epoch.
pub open spec fn first_second_of_year(y: int) -> int {
    days_before_year(y) * SECONDS_PER_DAY
}

/// A year has 366 days if it is a leap year and 365 if it is not.
pub proof fn lemma_year_length(y: int)
    ensures
        days_before_year(y + 1) - days_before_year(y) == if leap_year(y) {
            366int
        } else {
            365int
        },
{
    assert(y / 4 - (y - 1) / 4 == if y % 4 == 0 { 1int } else { 0int });
    assert(y / 100 - (y - 1) / 100 == if y % 100 == 0 { 1int } else { 0int });
    assert(y / 400 - (y - 1) / 400 == if y % 400 == 0 { 1int } else { 0int });
    assert(y % 400 == 0 ==> y % 100 == 0);
    assert(y % 100 == 0 ==> y % 4 == 0);
}

/// Later years start later, by at least 365 days a year.
pub proof fn lemma_years_ordered(a: int, b: int)
    requires
        a <= b,
    ensures
        days_before_year(a) + 365 * (b - a) <= days_before_year(b),
    decreases b - a,
{
    if a < b {
        lemma_years_ordered(a, b - 1);
        lemma_year_length(b - 1);
    }
}

/// A day lies in one year only.
pub proof fn lemma_year_unique(d: int, y1: int, y2: int)
    requires
        day_in_year(d, y1),
        day_in_year(d, y2),
    ensures
        y1 == y2,
{
    if y1 < y2 {
        lemma_years_ordered(y1 + 1, y2);
    } else if y2 < y1 {
        lemma_years_ordered(y2 + 1, y1);
    }
}

/// Every day lies in some year.
pub proof fn lemma_year_exists(d: int)
    ensures
        exists|y: int| day_in_year(d, y),
    decreases
            (if d >= 0 {
                d
            } else {
                -d
            }),
{
    if d == 0 {
        assert(day_in_year(0, 1970));
    } else if d > 0 {
        let before = d - 1;
        lemma_year_exists(before);
        let y = choose|y: int| day_in_year(before, y);
        lemma_year_length(y + 1);
        if d < days_before_year(y + 1) {
            assert(day_in_year(d, y));
        } else {
            assert(day_in_year(d, y + 1));
        }
    } else {
        let after = d + 1;
        lemma_year_exists(after);
        let y = choose|y: int| day_in_year(after, y);
        lemma_year_length(y - 1);
        if d >= days_before_year(y) {
            assert(day_in_year(d, y));
        } else {
            assert(day_in_year(d, y - 1));
        }
    }
}

/// The year of a day is the year in which the day lies.
pub proof fn lemma_year_of_day(d: int, y: int)
    ensures
        day_in_year(d, y) <==> year_of_day(d) == y,
{
    lemma_year_exists(d);
    if day_in_year(d, y) {
        lemma_year_unique(d, y, year_of_day(d));
    }
}

/// A day lies in a year before `y` exactly if it lies before January 1 of `y`.
pub proof fn lemma_year_before(d: int, y: int)
    ensures
        year_of_day(d) < y <==> d < days_before_year(y),
{
    let x = year_of_day(d);
    lemma_year_of_day(d, x);
    if x < y {
        lemma_years_ordered(x + 1, y);
    } else {
        lemma_years_ordered(y, x);
    }
}

/// A second lies in a year before `y` exactly if it comes before the first
/// second of `y`.
pub proof fn lemma_second_before_year(s: int, y: int)
    ensures
        year_of_second(s) < y <==> s < first_second_of_year(y),
{
    lemma_year_before(day_of_second(s), y);
}

/// The seconds from `MIN_SECOND` to `MAX_SECOND` are those of the years from
/// `MIN_YEAR` to `MAX_YEAR`.
pub proof fn lemma_second_range(s: int)
    ensures
        MIN_SECOND == first_second_of_year(MIN_YEAR as int),
        MAX_SECOND + 1 == first_second_of_year(MAX_YEAR + 1),
        MIN_SECOND <= s <= MAX_SECOND <==> MIN_YEAR <= year_of_second(s) <= MAX_YEAR,
{
    lemma_second_before_year(s, MIN_YEAR as int);
    lemma_second_before_year(s, MAX_YEAR + 1);
}

} // verus!
