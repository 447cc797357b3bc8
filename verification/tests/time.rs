use chrono::{Datelike, Local, NaiveDate, NaiveDateTime};
use mobius::calendar::YEAR_ZERO_SECS;
use mobius::error::Error;
use mobius::time::{
    Date, Duration, Timestamp, MAX_DAYS, MAX_ISO_YEAR, MAX_SECS, MAX_SPAN_SECS, MIN_DAYS,
    MIN_ISO_YEAR, MIN_SECS, SECS_PER_DAY,
};

#[test]
fn limits_are_those_of_the_calendar() {
    assert_eq!(NaiveDate::MIN.to_epoch_days(), MIN_DAYS);
    assert_eq!(NaiveDate::MAX.to_epoch_days(), MAX_DAYS);
    assert_eq!(NaiveDateTime::MIN.and_utc().timestamp(), MIN_SECS);
    assert_eq!(NaiveDateTime::MAX.and_utc().timestamp(), MAX_SECS);
    assert_eq!(MIN_SECS, MIN_DAYS as i64 * SECS_PER_DAY);
    assert_eq!(MAX_SECS, MAX_DAYS as i64 * SECS_PER_DAY + SECS_PER_DAY - 1);
    assert_eq!(MAX_SPAN_SECS, MAX_SECS - MIN_SECS);
    let year_zero = NaiveDate::from_ymd_opt(0, 1, 1).unwrap().and_hms_opt(0, 0, 0).unwrap();
    assert_eq!(year_zero.and_utc().timestamp(), YEAR_ZERO_SECS);
}

#[test]
fn years_of_weeks_are_those_around_the_calendar() {
    assert_eq!(MIN_ISO_YEAR, NaiveDate::MIN.year() - 1);
    assert_eq!(MAX_ISO_YEAR, NaiveDate::MAX.year() + 1);
    let mut days = MIN_DAYS;
    while days <= MIN_DAYS + 800 {
        let year = Date::from_days(days).unwrap().iso_week().year();
        assert!(MIN_ISO_YEAR <= year && year <= MAX_ISO_YEAR);
        days += 1;
    }
    let mut days = MAX_DAYS - 800;
    while days < MAX_DAYS {
        let year = Date::from_days(days).unwrap().iso_week().year();
        assert!(MIN_ISO_YEAR <= year && year <= MAX_ISO_YEAR);
        days += 1;
    }
    let last = Date::from_days(MAX_DAYS).unwrap().iso_week();
    assert_eq!((last.year(), last.week()), (MAX_ISO_YEAR, 1));
}

#[test]
fn from_secs_takes_what_the_calendar_reaches() {
    assert_eq!(Timestamp::from_secs(0).unwrap().secs(), 0);
    assert_eq!(Timestamp::from_secs(MIN_SECS).unwrap().secs(), MIN_SECS);
    assert_eq!(Timestamp::from_secs(MAX_SECS).unwrap().secs(), MAX_SECS);
    assert_eq!(Timestamp::from_secs(MIN_SECS - 1), None);
    assert_eq!(Timestamp::from_secs(MAX_SECS + 1), None);
    assert_eq!(Timestamp::from_secs(i64::MAX), None);
    assert_eq!(Timestamp::from_secs(i64::MIN), None);
}

#[test]
fn from_days_takes_what_the_calendar_reaches() {
    assert_eq!(Date::from_days(19358).unwrap().days(), 19358);
    assert_eq!(Date::from_days(MIN_DAYS).unwrap().days(), MIN_DAYS);
    assert_eq!(Date::from_days(MAX_DAYS).unwrap().days(), MAX_DAYS);
    assert_eq!(Date::from_days(MIN_DAYS - 1), None);
    assert_eq!(Date::from_days(MAX_DAYS + 1), None);
}

#[test]
fn the_ends_of_the_calendar_can_be_written() {
    assert_eq!(Timestamp::from_secs(MIN_SECS).unwrap().to_string(), "-262143/01/01 00:00:00");
    assert_eq!(Timestamp::from_secs(MAX_SECS).unwrap().to_string(), "+262142/12/31 23:59:59");
    assert_eq!(Timestamp::parse("-262143/01/01 00:00:00").unwrap().secs(), MIN_SECS);
    assert_eq!(Timestamp::parse("+262142/12/31 23:59:59").unwrap().secs(), MAX_SECS);
    assert_eq!(Date::from_days(MIN_DAYS).unwrap().iso_week().year(), -262143);
    assert_eq!(Date::from_days(MAX_DAYS).unwrap().iso_week().year(), 262143);
}

#[test]
fn parse_reads_a_date_and_a_time() {
    assert_eq!(Timestamp::parse("2023/01/01 08:00:00").unwrap().secs(), 1672560000);
    assert_eq!(Timestamp::parse("1970/01/01 00:00:00").unwrap().secs(), 0);
    assert_eq!(Timestamp::parse("1969/12/31 23:59:59").unwrap().secs(), -1);
    assert_eq!(Timestamp::parse("0000/01/01 00:00:00").unwrap().secs(), YEAR_ZERO_SECS);
}

#[test]
fn parse_refuses_what_is_no_time() {
    assert!(matches!(Timestamp::parse(""), Err(Error::ChronoParse(_))));
    assert!(matches!(Timestamp::parse("2023/01/01"), Err(Error::ChronoParse(_))));
    assert!(matches!(Timestamp::parse("2023/02/30 08:00:00"), Err(Error::ChronoParse(_))));
    assert!(matches!(Timestamp::parse("2023/01/01 24:00:00"), Err(Error::ChronoParse(_))));
    assert!(matches!(Timestamp::parse("2023/01/01 08:00:00 "), Err(Error::ChronoParse(_))));
    assert!(matches!(Timestamp::parse("2023-01-01 08:00:00"), Err(Error::ChronoParse(_))));
    assert!(matches!(Timestamp::parse("10000/01/01 00:00:00"), Err(Error::ChronoParse(_))));
}

#[test]
fn to_string_writes_a_date_and_a_time() {
    assert_eq!(Timestamp::from_secs(1672560000).unwrap().to_string(), "2023/01/01 08:00:00");
    assert_eq!(Timestamp::from_secs(0).unwrap().to_string(), "1970/01/01 00:00:00");
    assert_eq!(Timestamp::from_secs(-1).unwrap().to_string(), "1969/12/31 23:59:59");
    assert_eq!(
        Timestamp::from_secs(YEAR_ZERO_SECS).unwrap().to_string(),
        "0000/01/01 00:00:00"
    );
    assert_eq!(
        Timestamp::from_secs(253402300800).unwrap().to_string(),
        "+10000/01/01 00:00:00"
    );
}

#[test]
fn text_reads_back_as_the_time() {
    let samples: Vec<i64> = vec![
        MIN_SECS,
        YEAR_ZERO_SECS - 1,
        YEAR_ZERO_SECS,
        -86401,
        -1,
        0,
        1,
        86399,
        86400,
        951782400,
        1672560000,
        253402300799,
        253402300800,
        MAX_SECS,
    ];
    for secs in samples {
        let time = Timestamp::from_secs(secs).unwrap();
        assert_eq!(Timestamp::parse(&time.to_string()), Ok(time));
    }
}

#[test]
fn date_is_the_day_of_the_time() {
    assert_eq!(Timestamp::from_secs(0).unwrap().date().days(), 0);
    assert_eq!(Timestamp::from_secs(86399).unwrap().date().days(), 0);
    assert_eq!(Timestamp::from_secs(86400).unwrap().date().days(), 1);
    assert_eq!(Timestamp::from_secs(-1).unwrap().date().days(), -1);
    assert_eq!(Timestamp::from_secs(-86400).unwrap().date().days(), -1);
    assert_eq!(Timestamp::from_secs(-86401).unwrap().date().days(), -2);
    assert_eq!(Timestamp::from_secs(MIN_SECS).unwrap().date().days(), MIN_DAYS);
    assert_eq!(Timestamp::from_secs(MAX_SECS).unwrap().date().days(), MAX_DAYS);
    let time = Timestamp::parse("2023/01/01 23:50:00").unwrap();
    assert_eq!(time.date().days(), 19358);
    let expected = NaiveDate::from_ymd_opt(2023, 1, 1).unwrap().to_epoch_days();
    assert_eq!(time.date().days(), expected);
}

#[test]
fn iso_week_is_the_week_of_the_day() {
    let sunday = Timestamp::parse("2023/01/01 08:00:00").unwrap();
    assert_eq!(sunday.iso_week().year(), 2022);
    assert_eq!(sunday.iso_week().week(), 52);
    let monday = Timestamp::parse("2023/01/02 00:00:00").unwrap();
    assert_eq!(monday.iso_week().year(), 2023);
    assert_eq!(monday.iso_week().week(), 1);
    assert_eq!(monday.iso_week(), monday.date().iso_week());
    let date = Date::from_days(7911).unwrap();
    assert_eq!(date.iso_week().year(), 1991);
    assert_eq!(date.iso_week().week(), 35);
    let last = Date::from_days(18630).unwrap();
    let expected = NaiveDate::from_ymd_opt(2021, 1, 3).unwrap().iso_week();
    assert_eq!(last.iso_week().year(), expected.year());
    assert_eq!(last.iso_week().week(), 53);
}

#[test]
fn now_is_the_local_time_of_the_clock() {
    let before = Local::now().naive_local().and_utc().timestamp();
    let now = Timestamp::now().secs();
    let after = Local::now().naive_local().and_utc().timestamp();
    assert!(before <= now && now <= after);
    assert!(now > 1577836800);
}

#[test]
fn between_is_end_less_start() {
    let start = Timestamp::from_secs(1672560000).unwrap();
    let end = Timestamp::from_secs(1672569000).unwrap();
    assert_eq!(Duration::between(&start, &end).num_seconds(), 9000);
    assert_eq!(Duration::between(&end, &start).num_seconds(), -9000);
    assert_eq!(Duration::between(&start, &start), Duration::zero());
    let first = Timestamp::from_secs(MIN_SECS).unwrap();
    let last = Timestamp::from_secs(MAX_SECS).unwrap();
    assert_eq!(Duration::between(&first, &last).num_seconds(), MAX_SPAN_SECS as i128);
    assert_eq!(Duration::between(&last, &first).num_seconds(), -(MAX_SPAN_SECS as i128));
}

#[test]
fn hours_and_minutes_round_towards_zero() {
    assert_eq!(Duration::seconds(7500).num_hours(), 2);
    assert_eq!(Duration::seconds(7500).num_minutes(), 125);
    assert_eq!(Duration::seconds(3599).num_hours(), 0);
    assert_eq!(Duration::seconds(59).num_minutes(), 0);
    assert_eq!(Duration::seconds(-59).num_minutes(), 0);
    assert_eq!(Duration::seconds(-60).num_minutes(), -1);
    assert_eq!(Duration::seconds(-3599).num_hours(), 0);
    assert_eq!(Duration::seconds(-5400).num_hours(), -1);
    assert_eq!(Duration::seconds(-5400).num_minutes(), -90);
    assert_eq!(Duration::seconds(0).num_seconds(), 0);
    assert!(Duration::zero().is_zero());
    assert!(!Duration::seconds(1).is_zero());
    let like = chrono::Duration::seconds(-5400);
    assert_eq!(Duration::seconds(-5400).num_hours(), like.num_hours() as i128);
    assert_eq!(Duration::seconds(-5400).num_minutes(), like.num_minutes() as i128);
}

fn samples() -> Vec<i64> {
    let mut all: Vec<i64> = vec![
        MIN_SECS,
        MIN_SECS + 1,
        YEAR_ZERO_SECS - 86400,
        YEAR_ZERO_SECS - 1,
        YEAR_ZERO_SECS,
        YEAR_ZERO_SECS + 1,
        -1,
        0,
        1,
        253402300799,
        253402300800,
        MAX_SECS - 1,
        MAX_SECS,
    ];
    let mut state: u64 = 0x2545_f491_4f6c_dd1d;
    let span = (MAX_SECS - MIN_SECS) as u64 + 1;
    let near = 4_102_444_800u64;
    for round in 0..6000 {
        state ^= state << 13;
        state ^= state >> 7;
        state ^= state << 17;
        if round % 2 == 0 {
            all.push(MIN_SECS + (state % span) as i64);
        } else {
            all.push((state % near) as i64);
        }
    }
    all
}

fn is_plain(text: &str) -> bool {
    let allowed = |c: char| c.is_ascii_digit() || c == '/' || c == ':' || c == ' ' || c == '+';
    !text.is_empty()
        && text.chars().all(allowed)
        && !text.starts_with(' ')
        && !text.ends_with(' ')
}

#[test]
fn text_of_a_time_is_plain_or_plain_after_a_hyphen() {
    for secs in samples() {
        let text = Timestamp::from_secs(secs).unwrap().to_string();
        if secs >= YEAR_ZERO_SECS {
            assert!(is_plain(&text), "{:?}", text);
        } else {
            assert!(text.starts_with('-') && is_plain(&text[1..]), "{:?}", text);
        }
        assert_eq!(Timestamp::parse(&text).unwrap().secs(), secs);
    }
}

#[test]
fn text_from_the_year_0_to_the_year_9999_has_nineteen_characters() {
    for secs in samples() {
        if YEAR_ZERO_SECS <= secs && secs <= 253402300799 {
            assert_eq!(Timestamp::from_secs(secs).unwrap().to_string().len(), 19);
        }
    }
}

#[test]
fn day_week_and_length_are_those_of_the_calendar() {
    let all = samples();
    for (i, secs) in all.iter().enumerate() {
        let ours = Timestamp::from_secs(*secs).unwrap();
        let theirs = chrono::DateTime::from_timestamp(*secs, 0).unwrap().naive_utc();
        assert_eq!(ours.date().days(), theirs.date().to_epoch_days());
        assert_eq!(ours.iso_week().year(), theirs.iso_week().year());
        assert_eq!(ours.iso_week().week(), theirs.iso_week().week());
        let other = all[(i + 1) % all.len()];
        let next = Timestamp::from_secs(other).unwrap();
        let their_next = chrono::DateTime::from_timestamp(other, 0).unwrap().naive_utc();
        let length = their_next.signed_duration_since(theirs);
        assert_eq!(Duration::between(&ours, &next).num_seconds(), length.num_seconds() as i128);
        assert_eq!(ours < next, theirs < their_next);
        assert_eq!(ours == next, theirs == their_next);
    }
}
