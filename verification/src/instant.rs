//! Instants on the UTC time line.

use crate::calendar::{
    day_of_second, lemma_second_range, lemma_year_of_day, year_of_second, MAX_SECOND, MAX_YEAR,
    MIN_SECOND, MIN_YEAR,
};
use crate::utc;
use vstd::prelude::*;

verus! {

/// What an `Instant` stands for: a whole second counted from the epoch,
/// 1970-01-01T00:00:00Z, and the nanoseconds past that second.
///
/// A leap second is written as the second before it with a thousand million
/// nanoseconds or more.
pub struct Moment {
    pub second: int,
    pub nano: int,
}

impl Moment {
    /// The moment `n` whole seconds after the epoch.
    pub open spec fn of_seconds(n: int) -> Moment {
        Moment { second: n, nano: 0 }
    }

    /// The moment `n` milliseconds after the epoch.
    pub open spec fn of_millis(n: int) -> Moment {
        Moment { second: n / 1000, nano: (n % 1000) * 1_000_000 }
    }

    /// Whether an `Instant` can stand for this moment.
    pub open spec fn representable(self) -> bool {
        utc::representable(self.second, self.nano)
    }

    /// The milliseconds from the epoch to this moment, cut off, not rounded.
    pub open spec fn millis(self) -> int {
        self.second * 1000 + self.nano / 1_000_000
    }

    /// The calendar year in which this moment lies.
    pub open spec fn year(self) -> int {
        year_of_second(self.second)
    }

    /// The milliseconds past the whole second, cut off, not rounded; in a leap
    /// second, those past its own start.
    pub open spec fn subsec_millis(self) -> int {
        self.nano % 1_000_000_000 / 1_000_000
    }

    /// This moment as ISO 8601 text in UTC with millisecond precision.
    pub open spec fn iso_text(self) -> Seq<char> {
        utc::rfc3339_millis_text(self.second, self.nano)
    }
}

/// A point in time, kept in UTC.
#[derive(Clone, Copy, Debug, PartialEq, Eq, Structural, Hash)]
pub struct Instant {
    second: i64,
    nano: u32,
}

impl View for Instant {
    type V = Moment;

    closed spec fn view(&self) -> Moment {
        Moment { second: self.second as int, nano: self.nano as int }
    }
}

impl Instant {
    #[verifier::type_invariant]
    spec fn well_formed(self) -> bool {
        utc::representable(self.second as int, self.nano as int)
    }

    /// Two instants that stand for the same moment are the same instant.
    pub proof fn lemma_same_moment(a: Instant, b: Instant)
        requires
            a@ == b@,
        ensures
            a == b,
    {
    }

    /// The instant of a representable second and nanosecond.
    pub(crate) fn from_parts(second: i64, nano: u32) -> (t: Instant)
        requires
            utc::representable(second as int, nano as int),
        ensures
            t@ == (Moment { second: second as int, nano: nano as int }),
    {
        Instant { second, nano }
    }

    /// The instant `second` whole seconds and `nano` nanoseconds after the
    /// epoch, if there is one.
    pub fn from_timestamp(second: i64, nano: u32) -> (r: Option<Instant>)
        ensures
            match r {
                Some(t) => t@ == (Moment { second: second as int, nano: nano as int })
                    && t@.representable(),
                None => !utc::representable(second as int, nano as int),
            },
    {
        match utc::timestamp_opt(second, nano) {
            Some(p) => Some(Instant::from_parts(p.0, p.1)),
            None => None,
        }
    }

    /// The instant `millis` milliseconds after the epoch, if there is one.
    pub fn from_timestamp_millis(millis: i64) -> (r: Option<Instant>)
        ensures
            match r {
                Some(t) => t@ == Moment::of_millis(millis as int) && t@.representable(),
                None => !Moment::of_millis(millis as int).representable(),
            },
    {
        match utc::timestamp_millis_opt(millis) {
            Some(p) => Some(Instant::from_parts(p.0, p.1)),
            None => None,
        }
    }

    /// The whole seconds from the epoch to this instant.
    pub fn timestamp(&self) -> (s: i64)
        ensures
            s == self@.second,
            MIN_SECOND <= s <= MAX_SECOND,
    {
        proof {
            use_type_invariant(self);
        }
        self.second
    }

    /// The nanoseconds past the whole second; a thousand million or more in a
    /// leap second.
    pub fn timestamp_subsec_nanos(&self) -> (n: u32)
        ensures
            n == self@.nano,
            self@.representable(),
    {
        proof {
            use_type_invariant(self);
        }
        self.nano
    }

    /// The milliseconds from the epoch to this instant, cut off, not rounded.
    pub fn timestamp_millis(&self) -> (m: i64)
        ensures
            m == self@.millis(),
    {
        proof {
            use_type_invariant(self);
        }
        self.second * 1000 + (self.nano / 1_000_000) as i64
    }

    /// The calendar year in which this instant lies.
    pub fn year(&self) -> (y: i32)
        ensures
            y == self@.year(),
            MIN_YEAR <= y <= MAX_YEAR,
    {
        proof {
            use_type_invariant(self);
        }
        match utc::year(self.second, self.nano) {
            Some(y) => {
                proof {
                    lemma_year_of_day(day_of_second(self.second as int), y as int);
                    lemma_second_range(self.second as int);
                }
                y
            },
            None => unreached(),
        }
    }

    /// This instant as ISO 8601 text in UTC with exactly three fractional
    /// digits and the suffix `Z`.
    pub fn to_rfc3339_millis(&self) -> (s: String)
        ensures
            s@ == self@.iso_text(),
            utc::ends_with_millis_and_z(s@, self@.subsec_millis()),
    {
        proof {
            use_type_invariant(self);
        }
        match utc::to_rfc3339_millis(self.second, self.nano) {
            Some(s) => s,
            None => unreached(),
        }
    }
}

} // verus!
