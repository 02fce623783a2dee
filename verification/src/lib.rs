//! An embeddable, single-file, append-only time-series record store.
//!
//! A [`Series`] persists typed, timestamped records to a log of lines,
//! replays that log on open, and answers queries over the in-memory record
//! set.  Records are identified by a [`UniqueId`], carry a payload
//! implementing [`Recordable`], and can be filtered with the composable
//! [`Criteria`] predicates.  Timestamps are [`DateTimeTz`] values: an
//! absolute instant plus an optional named timezone, with a lossless
//! string representation.

mod criteria;
mod date_time_tz;
mod interval;
mod series;
mod text;
mod types;

pub use criteria::{exact_time, time_range, And, Criteria, EndTime, Or, StartTime, Tags};
pub use date_time_tz::{DateTimeTz, MAX_INSTANT, MIN_INSTANT};
pub use interval::Interval;
pub use series::Series;
pub use types::{DeletableRecord, Error, Record, Recordable, UniqueId};
