//! Points and spans on the local wall-clock timeline, counted in whole seconds.

use crate::calendar::{
    datetime_parsed, datetime_text, format_datetime, is_plain, iso_week_of, local_now,
    parse_datetime, week_of_day, YEAR_ZERO_SECS,
};
use crate::error::Error;
use crate::format::{is_pattern, DATETIME_FMT};
use crate::text::chars_of;
use vstd::prelude::*;

verus! {

/// Seconds in one civil day.
pub const SECS_PER_DAY: i64 = 86_400;

/// The first day that the calendar can name, counted from 1970-01-01.
pub const MIN_DAYS: i32 = -96_465_292;

/// The last day that the calendar can name, counted from 1970-01-01.
pub const MAX_DAYS: i32 = 95_026_236;

/// Midnight at the start of `MIN_DAYS`.
pub const MIN_SECS: i64 = -8_334_601_228_800;

/// The last second of `MAX_DAYS`.
pub const MAX_SECS: i64 = 8_210_266_876_799;

/// The first year that a week of the calendar can belong to: the year
/// before that of `MIN_DAYS`.
pub const MIN_ISO_YEAR: i32 = -262_144;

/// The last year that a week of the calendar can belong to: the year after
/// that of `MAX_DAYS`.
pub const MAX_ISO_YEAR: i32 = 262_143;

/// The longest time between two times that the calendar can name.
pub const MAX_SPAN_SECS: i64 = 16_544_868_105_599;

/// The number of the day that holds second `secs`.
pub open spec fn day_of(secs: int) -> int {
    secs / 86_400
}

/// The canonical text of the time `secs`: its date and its time of day.
pub open spec fn stamp(secs: int) -> Seq<char> {
    datetime_text(secs, DATETIME_FMT@)
}

/// The time that `text` spells as a date and a time of day.
pub open spec fn stamp_read(text: Seq<char>) -> Option<int> {
    datetime_parsed(text, DATETIME_FMT@)
}

/// What the calendar says of the canonical text of each time that it
/// writes: the text reads back as that time; from the year 0 on it is plain;
/// before the year 0 it is plain text with a hyphen in front.
pub open spec fn is_canonical(secs: int) -> bool {
    &&& stamp_read(stamp(secs)) == Some(secs)
    &&& secs >= YEAR_ZERO_SECS ==> is_plain(stamp(secs))
    &&& secs < YEAR_ZERO_SECS ==> stamp(secs).len() > 0 && stamp(secs)[0] == '-' && is_plain(
        stamp(secs).skip(1),
    )
}

/// The text of day `days` under `pattern`: that of its midnight.
pub open spec fn date_text(days: int, pattern: Seq<char>) -> Seq<char> {
    datetime_text(days * 86_400, pattern)
}

/// Truncating division, as executable signed division rounds.
pub open spec fn quotient(a: int, b: int) -> int
    recommends
        b > 0,
{
    if a >= 0 {
        a / b
    } else {
        -((-a) / b)
    }
}

/// What truncating division leaves over; it has the sign of `a`.
pub open spec fn remainder(a: int, b: int) -> int
    recommends
        b > 0,
{
    a - b * quotient(a, b)
}

/// A day of the calendar, as a count of days since 1970-01-01.
#[derive(Debug, Clone, Copy, PartialEq, Eq, PartialOrd, Ord, Hash, Structural)]
pub struct Date {
    pub(crate) days: i32,
}

impl View for Date {
    type V = int;

    open(crate) spec fn view(&self) -> int {
        self.days as int
    }
}

impl Date {
    #[verifier::type_invariant]
    pub(crate) open spec fn in_range(self) -> bool {
        MIN_DAYS <= self.days <= MAX_DAYS
    }

    /// The day `days` days after 1970-01-01, if the calendar reaches that far.
    pub fn from_days(days: i32) -> (r: Option<Date>)
        ensures
            r is Some <==> MIN_DAYS <= days <= MAX_DAYS,
            r matches Some(d) ==> d@ == days,
    {
        if MIN_DAYS <= days && days <= MAX_DAYS {
            Some(Date { days })
        } else {
            None
        }
    }

    /// The number of days from 1970-01-01 to this day.
    pub fn days(&self) -> (r: i32)
        ensures
            r == self@,
            MIN_DAYS <= r <= MAX_DAYS,
    {
        proof {
            use_type_invariant(self);
        }
        self.days
    }

    /// The ISO 8601 week that holds this day.
    pub fn iso_week(&self) -> (r: IsoWeek)
        ensures
            r@ == iso_week_of(self@),
    {
        proof {
            use_type_invariant(self);
        }
        let (year, week) = week_of_day(self.days);
        IsoWeek { year, week }
    }

    /// The characters of this day under `pattern`.
    pub(crate) fn format(&self, pattern: &str) -> (text: Vec<char>)
        requires
            is_pattern(pattern@),
        ensures
            text@ == date_text(self@, pattern@),
    {
        proof {
            use_type_invariant(self);
        }
        let midnight: i64 = self.days as i64 * SECS_PER_DAY;
        let text = format_datetime(midnight, pattern);
        chars_of(text.as_str())
    }
}

/// A local wall-clock time to the second, as a count of seconds since
/// 1970-01-01 00:00:00. Every day has 86 400 of them.
#[derive(Debug, Clone, Copy, PartialEq, Eq, PartialOrd, Ord, Hash, Structural)]
pub struct Timestamp {
    pub(crate) secs: i64,
}

impl View for Timestamp {
    type V = int;

    open(crate) spec fn view(&self) -> int {
        self.secs as int
    }
}

impl Timestamp {
    #[verifier::type_invariant]
    pub(crate) open spec fn in_range(self) -> bool {
        MIN_SECS <= self.secs <= MAX_SECS
    }

    /// The time `secs` seconds after 1970-01-01 00:00:00, if the calendar
    /// reaches that far.
    pub fn from_secs(secs: i64) -> (r: Option<Timestamp>)
        ensures
            r is Some <==> MIN_SECS <= secs <= MAX_SECS,
            r matches Some(t) ==> t@ == secs,
    {
        if MIN_SECS <= secs && secs <= MAX_SECS {
            Some(Timestamp { secs })
        } else {
            None
        }
    }

    /// The number of seconds from 1970-01-01 00:00:00 to this time.
    pub fn secs(&self) -> (r: i64)
        ensures
            r == self@,
            MIN_SECS <= r <= MAX_SECS,
    {
        proof {
            use_type_invariant(self);
        }
        self.secs
    }

    /// The local wall-clock time of this moment. Which time that is, the
    /// clock decides; whatever it says, it is a time that the calendar can
    /// name.
    pub fn now() -> (r: Timestamp)
        ensures
            MIN_SECS <= r@ <= MAX_SECS,
    {
        let secs: i64 = local_now();
        Timestamp { secs }
    }

    /// The time that `text` spells as a date and a time of day.
    pub fn parse(text: &str) -> (r: Result<Timestamp, Error>)
        ensures
            r matches Ok(t) ==> stamp_read(text@) == Some(t@),
            r matches Err(e) ==> stamp_read(text@) is None && e is ChronoParse,
    {
        match parse_datetime(text, DATETIME_FMT) {
            Ok(secs) => Ok(Timestamp { secs }),
            Err(e) => Err(Error::ChronoParse(e)),
        }
    }

    /// The canonical text of this time.
    pub fn to_string(&self) -> (text: String)
        ensures
            text@ == stamp(self@),
            is_canonical(self@),
    {
        proof {
            use_type_invariant(self);
        }
        format_datetime(self.secs, DATETIME_FMT)
    }

    /// The characters of this time under `pattern`.
    pub(crate) fn format(&self, pattern: &str) -> (text: Vec<char>)
        requires
            is_pattern(pattern@),
        ensures
            text@ == datetime_text(self@, pattern@),
            pattern@ == DATETIME_FMT@ ==> is_canonical(self@),
    {
        proof {
            use_type_invariant(self);
        }
        let text = format_datetime(self.secs, pattern);
        chars_of(text.as_str())
    }

    /// The ISO 8601 week in which this time falls.
    pub fn iso_week(&self) -> (r: IsoWeek)
        ensures
            r@ == iso_week_of(day_of(self@)),
    {
        self.date().iso_week()
    }

    /// The day on which this time falls.
    pub fn date(&self) -> (r: Date)
        ensures
            r@ == day_of(self@),
    {
        proof {
            use_type_invariant(self);
        }
        let whole: i64 = self.secs / SECS_PER_DAY;
        let rest: i64 = self.secs % SECS_PER_DAY;
        let days: i64 = if rest < 0 {
            whole - 1
        } else {
            whole
        };
        Date { days: days as i32 }
    }
}

/// A signed length of time in whole seconds.
#[derive(Debug, Clone, Copy, PartialEq, Eq, PartialOrd, Ord, Hash, Structural)]
pub struct Duration {
    pub(crate) secs: i128,
}

impl View for Duration {
    type V = int;

    open(crate) spec fn view(&self) -> int {
        self.secs as int
    }
}

impl Duration {
    /// No time at all.
    pub fn zero() -> (r: Duration)
        ensures
            r@ == 0,
    {
        Duration { secs: 0 }
    }

    /// A length of `secs` seconds.
    pub fn seconds(secs: i64) -> (r: Duration)
        ensures
            r@ == secs,
    {
        Duration { secs: secs as i128 }
    }

    /// The time from `start` to `end`; negative where `end` comes first.
    pub fn between(start: &Timestamp, end: &Timestamp) -> (r: Duration)
        ensures
            r@ == end@ - start@,
            -MAX_SPAN_SECS <= r@ <= MAX_SPAN_SECS,
    {
        proof {
            use_type_invariant(start);
            use_type_invariant(end);
        }
        Duration { secs: (end.secs - start.secs) as i128 }
    }

    /// True of a length of no seconds.
    pub fn is_zero(&self) -> (r: bool)
        ensures
            r == (self@ == 0),
    {
        self.secs == 0
    }

    /// The length in seconds.
    pub fn num_seconds(&self) -> (r: i128)
        ensures
            r == self@,
    {
        self.secs
    }

    /// Whole minutes, rounded towards zero.
    pub fn num_minutes(&self) -> (r: i128)
        ensures
            r == quotient(self@, 60),
    {
        self.secs / 60
    }

    /// Whole hours, rounded towards zero.
    pub fn num_hours(&self) -> (r: i128)
        ensures
            r == quotient(self@, 3600),
    {
        self.secs / 3600
    }
}

/// A week of the ISO 8601 calendar: a year and the number of a week in it.
/// The year is one that a week of the calendar can belong to.
#[derive(Debug, Clone, Copy, PartialEq, Eq, PartialOrd, Ord, Hash, Structural)]
pub struct IsoWeek {
    pub(crate) year: i32,
    pub(crate) week: u32,
}

impl View for IsoWeek {
    type V = (int, int);

    open(crate) spec fn view(&self) -> (int, int) {
        (self.year as int, self.week as int)
    }
}

impl IsoWeek {
    #[verifier::type_invariant]
    pub(crate) open spec fn in_range(self) -> bool {
        MIN_ISO_YEAR <= self.year <= MAX_ISO_YEAR
    }

    /// The ISO 8601 year of the week, which at the turn of a year is not always
    /// the year of its days.
    pub fn year(&self) -> (r: i32)
        ensures
            r == self@.0,
            MIN_ISO_YEAR <= r <= MAX_ISO_YEAR,
    {
        proof {
            use_type_invariant(self);
        }
        self.year
    }

    /// The number of the week in its year, from 1 on.
    pub fn week(&self) -> (r: u32)
        ensures
            r == self@.1,
    {
        self.week
    }
}

} // verus!
