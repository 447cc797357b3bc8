//! The date and the week that the command line gives.

use crate::calendar::{date_parsed, day_of_week, iso_week_day, iso_week_of, parse_day};
use crate::error::Error;
use crate::format::DATE_FMT;
use crate::text::{
    chars_of, lemma_split_nonempty, parse_i32, parse_u32, read_i32, read_u32, split, split_at,
    trim, trimmed,
};
use crate::time::{Date, IsoWeek, MAX_ISO_YEAR, MIN_ISO_YEAR};
use vstd::prelude::*;

verus! {

/// The day that `from` spells as day, month name and year, `30-Aug-1991`.
pub fn parse_date(from: &str) -> (r: Result<Date, Error>)
    ensures
        r matches Ok(date) ==> date_parsed(from@, DATE_FMT@) == Some(date@),
        r matches Err(e) ==> date_parsed(from@, DATE_FMT@) is None && e is ChronoParse,
{
    match parse_day(from, DATE_FMT) {
        Ok(days) => Ok(Date { days }),
        Err(e) => Err(Error::ChronoParse(e)),
    }
}

/// The fields of a week: what stands between the hyphens of `from`, white
/// space at its ends apart.
pub open spec fn week_fields(from: Seq<char>) -> Seq<Seq<char>> {
    split(trim(from), '-')
}

/// True of the week numbers that every year has.
pub open spec fn is_week_number(week: int) -> bool {
    1 <= week <= 52
}

/// True of the years that a week of the calendar can belong to.
pub open spec fn is_iso_year(year: int) -> bool {
    MIN_ISO_YEAR <= year <= MAX_ISO_YEAR
}

/// The week that `from` spells as week number and year, `35-2021`: two
/// fields with a hyphen between them, and no more. The week is read first,
/// then tested, then the fields are counted, then the year is read and
/// tested. The calendar must have a Monday for that week of that year, and
/// place that Monday in that week.
pub fn parse_week(from: &str) -> (r: Result<IsoWeek, Error>)
    ensures
        ({
            let fields = week_fields(from@);
            match read_u32(fields[0]) {
                Err(kind) => r matches Err(Error::ParseInt(k)) && k == kind,
                Ok(week) => if !is_week_number(week) {
                    r matches Err(e) && e is InvalidWeekNumber
                } else if fields.len() != 2 {
                    r matches Err(Error::NotAWeek(given)) && given@ == from@
                } else {
                    match read_i32(fields[1]) {
                        Err(kind) => r matches Err(Error::ParseInt(k)) && k == kind,
                        Ok(year) => if !is_iso_year(year) {
                            r matches Err(e) && e is InvalidWeekNumber
                        } else {
                            match iso_week_day(year, week, 0) {
                                None => r matches Err(e) && e is InvalidWeekNumber,
                                Some(monday) => if iso_week_of(monday) == (year, week) {
                                    r matches Ok(found) && found@ == (year, week)
                                } else {
                                    r matches Err(e) && e is InternalInconsistency
                                },
                            }
                        },
                    }
                },
            }
        }),
{
    let chars = chars_of(from);
    let entry = trimmed(&chars);
    let fields = split_at(&entry, '-');
    proof {
        lemma_split_nonempty(entry@, '-');
    }
    let week: u32 = match parse_u32(&fields[0]) {
        Ok(week) => week,
        Err(kind) => {
            return Err(Error::ParseInt(kind));
        },
    };
    if week == 0 || week > 52 {
        return Err(Error::InvalidWeekNumber);
    }
    if fields.len() != 2 {
        return Err(Error::NotAWeek(from.to_owned()));
    }
    let year: i32 = match parse_i32(&fields[1]) {
        Ok(year) => year,
        Err(kind) => {
            return Err(Error::ParseInt(kind));
        },
    };
    if year < MIN_ISO_YEAR || year > MAX_ISO_YEAR {
        return Err(Error::InvalidWeekNumber);
    }
    match day_of_week(year, week, 0) {
        None => Err(Error::InvalidWeekNumber),
        Some(monday) => {
            let found = (Date { days: monday }).iso_week();
            if found.year() == year && found.week() == week {
                Ok(found)
            } else {
                Err(Error::InternalInconsistency)
            }
        },
    }
}

} // verus!
