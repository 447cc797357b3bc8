//! The civil calendar and the clock, which chrono keeps. Times cross this
//! border as seconds since 1970-01-01 00:00:00 and days as days since
//! 1970-01-01; what chrono computes from them is named here and not worked
//! out again.

use crate::format::{is_pattern, DATETIME_FMT};
use crate::text::{is_digit, is_space};
use crate::time::{MAX_DAYS, MAX_ISO_YEAR, MAX_SECS, MIN_DAYS, MIN_ISO_YEAR, MIN_SECS};
use chrono::format::ParseError;
use chrono::{DateTime, Datelike, Local, NaiveDate, NaiveDateTime, Weekday};
use vstd::prelude::*;

verus! {

/// The first second of the year 0.
pub const YEAR_ZERO_SECS: i64 = -62_167_219_200;

/// chrono's reason for refusing a text.
#[verifier::external_type_specification]
#[verifier::external_body]
pub struct ExParseError(ParseError);

/// The text that chrono writes for the time `secs` under `pattern`.
pub uninterp spec fn datetime_text(secs: int, pattern: Seq<char>) -> Seq<char>;

/// The time that chrono reads from `text` under `pattern`, in seconds, or
/// `None` where it refuses the text.
pub uninterp spec fn datetime_parsed(text: Seq<char>, pattern: Seq<char>) -> Option<int>;

/// The day that chrono reads from `text` under `pattern`, or `None` where it
/// refuses the text.
pub uninterp spec fn date_parsed(text: Seq<char>, pattern: Seq<char>) -> Option<int>;

/// The ISO 8601 week in which chrono places day `days`: its year and its
/// number.
pub uninterp spec fn iso_week_of(days: int) -> (int, int);

/// The day that chrono finds for weekday `weekday` (0 for Monday, 6 for
/// Sunday) of week `week` of the ISO 8601 year `year`, or `None` where it has
/// no such day.
pub uninterp spec fn iso_week_day(year: int, week: int, weekday: int) -> Option<int>;

/// The characters of a written time whose year is not negative.
pub open spec fn is_stamp_char(c: char) -> bool {
    is_digit(c) || c == '/' || c == ':' || c == ' ' || c == '+'
}

/// Text that can stand alone on a line and as a field between hyphens: it is
/// not empty, has no white space at either end, and holds digits, `/`, `:`,
/// `+` and blanks only.
pub open spec fn is_plain(text: Seq<char>) -> bool {
    &&& text.len() > 0
    &&& !is_space(text.first())
    &&& !is_space(text.last())
    &&& forall|i: int| 0 <= i < text.len() ==> is_stamp_char(#[trigger] text[i])
}

/// `chrono::Local::now` and `DateTime::naive_local`: the local wall-clock
/// time of this moment, cut to the second. Nothing is known of it but that
/// chrono can represent it. chrono panics where the system clock stands
/// before 1970 or beyond what it can represent.
#[verifier::external_body]
pub(crate) fn local_now() -> (secs: i64)
    ensures
        MIN_SECS <= secs <= MAX_SECS,
{
    Local::now().naive_local().and_utc().timestamp()
}

/// `chrono::NaiveDateTime::format`, written out with `to_string`. The text is
/// named, not described. Of the pattern `DATETIME_FMT` the contract adds what
/// chrono documents for `%Y`, `%m`, `%d` and `%T`. `parse_from_str` reads the
/// text back as the same time. From the year 0 on the text is made of
/// zero-padded numbers, `/`, `:`, one blank inside and, beyond the year 9999,
/// a leading `+`. Before the year 0 it is such a text with `-` in front.
#[verifier::external_body]
pub(crate) fn format_datetime(secs: i64, pattern: &str) -> (text: String)
    requires
        MIN_SECS <= secs <= MAX_SECS,
        is_pattern(pattern@),
    ensures
        text@ == datetime_text(secs as int, pattern@),
        pattern@ == DATETIME_FMT@ ==> datetime_parsed(text@, pattern@) == Some(secs as int),
        pattern@ == DATETIME_FMT@ && secs >= YEAR_ZERO_SECS ==> is_plain(text@),
        pattern@ == DATETIME_FMT@ && secs < YEAR_ZERO_SECS ==> text@.len() > 0 && text@[0] == '-'
            && is_plain(text@.skip(1)),
{
    DateTime::from_timestamp(secs, 0).unwrap().naive_utc().format(pattern).to_string()
}

/// `chrono::NaiveDateTime::parse_from_str`, with the time it reads cut to the
/// second. The result is named; a time that chrono hands out is one that it
/// can represent.
#[verifier::external_body]
pub(crate) fn parse_datetime(text: &str, pattern: &str) -> (r: Result<i64, ParseError>)
    ensures
        r matches Ok(secs) ==> datetime_parsed(text@, pattern@) == Some(secs as int) && MIN_SECS
            <= secs <= MAX_SECS,
        r is Err ==> datetime_parsed(text@, pattern@) is None,
{
    match NaiveDateTime::parse_from_str(text, pattern) {
        Ok(time) => Ok(time.and_utc().timestamp()),
        Err(e) => Err(e),
    }
}

/// `chrono::NaiveDate::parse_from_str`. The result is named; a day that
/// chrono hands out is one that it can represent.
#[verifier::external_body]
pub(crate) fn parse_day(text: &str, pattern: &str) -> (r: Result<i32, ParseError>)
    ensures
        r matches Ok(days) ==> date_parsed(text@, pattern@) == Some(days as int) && MIN_DAYS
            <= days <= MAX_DAYS,
        r is Err ==> date_parsed(text@, pattern@) is None,
{
    match NaiveDate::parse_from_str(text, pattern) {
        Ok(date) => Ok(date.to_epoch_days()),
        Err(e) => Err(e),
    }
}

/// `chrono::Datelike::iso_week` of a day, with the year and the number of the
/// week it returns. The result is named. The year of a week is the year of
/// its day, the one before or the one after, so that it lies between
/// `MIN_ISO_YEAR` and `MAX_ISO_YEAR`.
#[verifier::external_body]
pub(crate) fn week_of_day(days: i32) -> (r: (i32, u32))
    requires
        MIN_DAYS <= days <= MAX_DAYS,
    ensures
        (r.0 as int, r.1 as int) == iso_week_of(days as int),
        MIN_ISO_YEAR <= r.0 <= MAX_ISO_YEAR,
{
    let week = NaiveDate::from_epoch_days(days).unwrap().iso_week();
    (week.year(), week.week())
}

/// `chrono::NaiveDate::from_isoywd_opt`, with 0 to 6 for Monday to Sunday.
/// The result is named; a day that chrono hands out is one that it can
/// represent. chrono steps to the year before and the year after `year`,
/// which must therefore lie between `MIN_ISO_YEAR` and `MAX_ISO_YEAR`.
#[verifier::external_body]
pub(crate) fn day_of_week(year: i32, week: u32, weekday: u8) -> (r: Option<i32>)
    requires
        MIN_ISO_YEAR <= year <= MAX_ISO_YEAR,
        weekday <= 6,
    ensures
        r matches Some(days) ==> iso_week_day(year as int, week as int, weekday as int) == Some(
            days as int,
        ) && MIN_DAYS <= days <= MAX_DAYS,
        r is None ==> iso_week_day(year as int, week as int, weekday as int) is None,
{
    let weekday = Weekday::try_from(weekday).unwrap();
    match NaiveDate::from_isoywd_opt(year, week, weekday) {
        Some(date) => Some(date.to_epoch_days()),
        None => None,
    }
}

/// `to_string` of chrono's `ParseError`: the sentence in which chrono says
/// why it refused a text. Nothing is stated of it.
#[verifier::external_body]
pub(crate) fn refusal_text(error: &ParseError) -> (text: String) {
    error.to_string()
}

} // verus!
