//! The three ways in which a resolved instant is reported.

use crate::instant::Instant;
use crate::utc::ends_with_millis_and_z;
use vstd::prelude::*;

verus! {

/// An instant as ISO 8601 text, as seconds and as milliseconds since the
/// epoch.
#[derive(Debug)]
pub struct Report {
    /// ISO 8601 in UTC, with exactly three fractional digits and the suffix `Z`.
    pub iso_8601: String,
    /// Whole seconds since the epoch.
    pub epoch_seconds: i64,
    /// Milliseconds since the epoch, cut off, not rounded.
    pub epoch_milliseconds: i64,
}

/// The three representations of `instant`.
pub fn report(instant: &Instant) -> (r: Report)
    ensures
        r.iso_8601@ == instant@.iso_text(),
        ends_with_millis_and_z(r.iso_8601@, instant@.subsec_millis()),
        r.epoch_seconds == instant@.second,
        r.epoch_milliseconds == instant@.millis(),
{
    Report {
        iso_8601: instant.to_rfc3339_millis(),
        epoch_seconds: instant.timestamp(),
        epoch_milliseconds: instant.timestamp_millis(),
    }
}

} // verus!
