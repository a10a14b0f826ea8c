//! Reads a timestamp that arrives without a format hint, either an ISO 8601
//! date-time or a count of seconds or milliseconds since the Unix epoch, and
//! resolves it to one instant in UTC.

pub mod calendar;
pub mod error;
pub mod instant;
pub mod number;
pub mod report;
pub mod resolve;
pub mod text;
pub mod utc;

pub use error::DateTimeError;
pub use instant::Instant;
pub use number::NumberError;
pub use report::{report, Report};
pub use resolve::{
    combine, epoch_to_datetime, get_datetime, iso_to_datetime, select_epoch_instant, CUTOFF_YEAR,
};
