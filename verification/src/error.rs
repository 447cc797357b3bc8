//! What can go wrong, and the sentence that says so.

use crate::calendar::{datetime_text, refusal_text};
use crate::format::PLAIN_FMT;
use crate::text::{append, append_str, string_of, IntErrorKind};
use crate::time::Timestamp;
use chrono::format::ParseError;
use vstd::prelude::*;

verus! {

/// What a command can fail with.
#[derive(Debug, PartialEq, Eq)]
pub enum Error {
    /// A session was to be stopped, and none is running.
    NoSessionRunning,
    /// A session was to be started, and one is running since the given time.
    SessionRunning(Timestamp),
    /// The calendar refused a time or a date.
    ChronoParse(ParseError),
    /// A week or a year is no number of its type.
    ParseInt(IntErrorKind),
    /// The given text does not have the two fields of a session.
    NotASession(String),
    /// The given text does not have exactly the two fields of a week.
    NotAWeek(String),
    /// The week number is not one of 1 to 52, or the calendar has no such
    /// week of the given year, or no such year.
    InvalidWeekNumber,
    /// The calendar does not find the seven days of a week, or places in the
    /// week a time that is on none of them.
    InternalInconsistency,
    /// A session is to end at a time that is not after its start: the clock
    /// is not past the start, or a text gives the end so.
    ClockSkew,
}

/// The sentence for a text that is no number.
pub open spec fn number_message(kind: IntErrorKind) -> Seq<char> {
    match kind {
        IntErrorKind::Empty => "cannot parse integer from empty string"@,
        IntErrorKind::InvalidDigit => "invalid digit found in string"@,
        IntErrorKind::PosOverflow => "number too large to fit in target type"@,
        IntErrorKind::NegOverflow => "number too small to fit in target type"@,
    }
}

impl Error {
    /// The sentence that reports this error. Where the calendar refused a
    /// text the sentence is the calendar's own, and is not stated here.
    pub open spec fn message(self) -> Option<Seq<char>> {
        match self {
            Error::NoSessionRunning => Some("No session is currently running"@),
            Error::SessionRunning(start) => Some(
                "A session is already running since "@ + datetime_text(start@, PLAIN_FMT@),
            ),
            Error::ChronoParse(_) => None,
            Error::ParseInt(kind) => Some(number_message(kind)),
            Error::NotASession(text) => Some(
                "Error:Could not parse '"@ + text@ + "' as a session"@,
            ),
            Error::NotAWeek(text) => Some("Error:Could not parse '"@ + text@ + "' as a week"@),
            Error::InvalidWeekNumber => Some("Error:Week number must be between 1 and 52"@),
            Error::InternalInconsistency => Some("Error:INTERNAL ERROR: Day not found"@),
            Error::ClockSkew => Some("The session does not end after its start"@),
        }
    }

    /// The sentence that reports this error.
    pub fn to_string(&self) -> (text: String)
        ensures
            self.message() matches Some(m) ==> text@ == m,
    {
        let mut buf: Vec<char> = Vec::new();
        match self {
            Error::NoSessionRunning => {
                append_str(&mut buf, "No session is currently running");
            },
            Error::SessionRunning(start) => {
                append_str(&mut buf, "A session is already running since ");
                let when = start.format(PLAIN_FMT);
                append(&mut buf, &when);
            },
            Error::ChronoParse(e) => {
                return refusal_text(e);
            },
            Error::ParseInt(kind) => {
                match kind {
                    IntErrorKind::Empty => {
                        append_str(&mut buf, "cannot parse integer from empty string");
                    },
                    IntErrorKind::InvalidDigit => {
                        append_str(&mut buf, "invalid digit found in string");
                    },
                    IntErrorKind::PosOverflow => {
                        append_str(&mut buf, "number too large to fit in target type");
                    },
                    IntErrorKind::NegOverflow => {
                        append_str(&mut buf, "number too small to fit in target type");
                    },
                }
            },
            Error::NotASession(text) => {
                append_str(&mut buf, "Error:Could not parse '");
                append_str(&mut buf, text.as_str());
                append_str(&mut buf, "' as a session");
            },
            Error::NotAWeek(text) => {
                append_str(&mut buf, "Error:Could not parse '");
                append_str(&mut buf, text.as_str());
                append_str(&mut buf, "' as a week");
            },
            Error::InvalidWeekNumber => {
                append_str(&mut buf, "Error:Week number must be between 1 and 52");
            },
            Error::InternalInconsistency => {
                append_str(&mut buf, "Error:INTERNAL ERROR: Day not found");
            },
            Error::ClockSkew => {
                append_str(&mut buf, "The session does not end after its start");
            },
        }
        string_of(&buf)
    }
}

} // verus!
