//! A ledger of work sessions: the sessions that are over, the one that is
//! running, the text in which they are kept in a file, and what a day and a
//! week add up to.
//!
//! Times are whole seconds on the local wall-clock timeline. The calendar
//! around them (dates, weeks, the written form of a time) is chrono's; the
//! module `calendar` is the border to it.

pub mod calendar;
pub mod command;
pub mod error;
pub mod format;
pub mod ledger;
pub mod parse;
pub mod report;
pub mod session;
pub mod summary;
pub mod text;
pub mod time;
