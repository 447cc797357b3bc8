//! The patterns in which times and dates are written, and the text of a
//! duration.

use crate::text::{append_str, decimal_wide, push_decimal_wide, string_of};
use crate::time::{quotient, remainder, Duration};
use vstd::prelude::*;

verus! {

/// A date and a time of day, as the ledger file holds them.
pub const DATETIME_FMT: &'static str = "%Y/%m/%d %T";

/// A time of day.
pub const TIME_FMT: &'static str = "%T";

/// A date, as the command line takes it.
pub const DATE_FMT: &'static str = "%e-%b-%Y";

/// A day of a week's summary: the weekday's name, the day and the month.
pub const WEEKDAY_FMT: &'static str = "%a %e-%b";

/// A date and a time of day, as a sentence shows them.
pub const PLAIN_FMT: &'static str = "%Y-%m-%d %H:%M:%S";

/// True of the patterns of this library.
pub open spec fn is_pattern(pattern: Seq<char>) -> bool {
    ||| pattern == DATETIME_FMT@
    ||| pattern == TIME_FMT@
    ||| pattern == DATE_FMT@
    ||| pattern == WEEKDAY_FMT@
    ||| pattern == PLAIN_FMT@
}

/// A duration of `secs` seconds as hours and minutes, `02h05m`: the whole
/// hours, then the whole minutes beyond them, both rounded towards zero.
pub open spec fn duration_text(secs: int) -> Seq<char> {
    decimal_wide(quotient(secs, 3600)) + "h"@ + decimal_wide(remainder(quotient(secs, 60), 60))
        + "m"@
}

/// Appends the text of `duration` to `buf`.
pub(crate) fn push_duration(buf: &mut Vec<char>, duration: &Duration)
    ensures
        final(buf)@ == old(buf)@ + duration_text(duration@),
{
    let hours: i128 = duration.num_hours();
    let minutes: i128 = duration.num_minutes() % 60;
    push_decimal_wide(buf, hours);
    append_str(buf, "h");
    push_decimal_wide(buf, minutes);
    append_str(buf, "m");
}

/// The text of `duration` in hours and minutes.
pub fn format_duration(duration: &Duration) -> (text: String)
    ensures
        text@ == duration_text(duration@),
{
    let mut buf: Vec<char> = Vec::new();
    push_duration(&mut buf, duration);
    string_of(&buf)
}

} // verus!
