//! Dated reminders: a small store of events, each seen from today by its
//! distance in whole calendar days.
//!
//! - [`calendar`]: dates, their `YYYY-MM-DD` text and the days between two
//!   of them.
//! - [`event`]: the reminder record, alone and with its distance from today.
//! - [`codec`]: one event as one row of text fields, and back.
//! - [`store`]: the stored table of events, as text.
//! - [`classifier`]: the events in three buckets: past, today and future.
//! - [`presenter`]: the buckets as the lines of a report.
//! - [`birthday`]: the age in days of someone born on a given day.
//! - [`run`]: one run from what was found to what is printed.
//! - [`error`] and [`text`]: the errors, and numbers as decimal text.
//!
//! Dates are calendar dates throughout: no time of day and no time zone
//! enters any distance. The library reads no file, no clock and no
//! environment; what it needs of them it is handed.

pub mod birthday;
pub mod calendar;
pub mod classifier;
pub mod codec;
pub mod error;
pub mod event;
pub mod presenter;
pub mod run;
pub mod store;
pub mod text;
