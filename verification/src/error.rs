//! Why a text could not be resolved to an instant.

use crate::number::NumberError;
use vstd::prelude::*;

verus! {

/// What a `DateTimeError` says, without the detail that the date-time parser
/// attached to its report.
pub enum Failure {
    /// The text is not a signed decimal integer.
    NumberFormat(NumberError),
    /// The text is not an ISO 8601 date-time.
    DateFormat,
    /// The integer is no instant, neither as seconds nor as milliseconds.
    InvalidEpochTime(int),
    /// Two readings were tried and both failed.
    Multiple(Box<Failure>, Box<Failure>),
}

/// Why a text could not be resolved to an instant.
#[derive(Debug)]
pub enum DateTimeError {
    /// The text is not a signed decimal integer.
    NumberFormatError(NumberError),
    /// The text is not an ISO 8601 date-time; the parser's report is kept.
    DateFormatError(chrono::format::ParseError),
    /// The integer is no instant, neither as seconds nor as milliseconds.
    InvalidEpochTime(i64),
    /// Two readings were tried and both failed: the first and the second.
    MultipleErrors(Box<DateTimeError>, Box<DateTimeError>),
}

impl View for DateTimeError {
    type V = Failure;

    open spec fn view(&self) -> Failure
        decreases self,
    {
        match self {
            DateTimeError::NumberFormatError(e) => Failure::NumberFormat(*e),
            DateTimeError::DateFormatError(_) => Failure::DateFormat,
            DateTimeError::InvalidEpochTime(n) => Failure::InvalidEpochTime(*n as int),
            DateTimeError::MultipleErrors(a, b) => Failure::Multiple(
                Box::new((**a).view()),
                Box::new((**b).view()),
            ),
        }
    }
}

} // verus!
