use chrono::NaiveDate;
use mobius::error::Error;
use mobius::parse::{parse_date, parse_week};
use mobius::text::{chars_of, parse_i32, parse_u32, split_at, trimmed, IntErrorKind};

fn chars(text: &str) -> Vec<char> {
    text.chars().collect()
}

fn kind_of(error: &std::num::ParseIntError) -> IntErrorKind {
    match error.kind() {
        std::num::IntErrorKind::Empty => IntErrorKind::Empty,
        std::num::IntErrorKind::InvalidDigit => IntErrorKind::InvalidDigit,
        std::num::IntErrorKind::PosOverflow => IntErrorKind::PosOverflow,
        std::num::IntErrorKind::NegOverflow => IntErrorKind::NegOverflow,
        other => panic!("not a kind of this library: {:?}", other),
    }
}

fn numbers() -> Vec<&'static str> {
    vec![
        "", "0", "1", "9", "10", "35", "52", "053", "0000000000000000000000035", "+", "-", "+0",
        "-0", "+35", "-35", "++35", "--35", "+-35", "3 5", " 35", "35 ", "3_5", "35x", "x35",
        "2147483647", "2147483648", "-2147483648", "-2147483649", "4294967295", "4294967296",
        "+4294967295", "+4294967296", "99999999999", "99999999999x", "-99999999999",
        "-99999999999x", "9999999999x9", "42949672950", "४२", "1e3", "0x10", "12.5",
    ]
}

#[test]
fn parse_date_reads_day_month_and_year() {
    assert_eq!(parse_date("1-Jan-2023").unwrap().days(), 19358);
    assert_eq!(parse_date(" 1-Jan-2023").unwrap().days(), 19358);
    assert_eq!(parse_date("30-Aug-1991").unwrap().days(), 7911);
    assert_eq!(parse_date("30-aug-1991").unwrap().days(), 7911);
    assert_eq!(
        parse_date("29-Feb-2024").unwrap().days(),
        NaiveDate::from_ymd_opt(2024, 2, 29).unwrap().to_epoch_days()
    );
}

#[test]
fn parse_date_refuses_what_is_no_date() {
    assert!(matches!(parse_date(""), Err(Error::ChronoParse(_))));
    assert!(matches!(parse_date("2023/01/01"), Err(Error::ChronoParse(_))));
    assert!(matches!(parse_date("29-Feb-2023"), Err(Error::ChronoParse(_))));
    assert!(matches!(parse_date("1-Jan-2023 "), Err(Error::ChronoParse(_))));
    assert!(matches!(parse_date("1-Foo-2023"), Err(Error::ChronoParse(_))));
}

#[test]
fn parse_week_reads_week_and_year() {
    let week = parse_week("35-2021").unwrap();
    assert_eq!(week.week(), 35);
    assert_eq!(week.year(), 2021);
    let first = parse_week("1-2023").unwrap();
    assert_eq!((first.week(), first.year()), (1, 2023));
    let last = parse_week("52-2020").unwrap();
    assert_eq!((last.week(), last.year()), (52, 2020));
    let expected = NaiveDate::from_isoywd_opt(2021, 35, chrono::Weekday::Mon).unwrap();
    assert_eq!(expected, NaiveDate::from_ymd_opt(2021, 8, 30).unwrap());
}

#[test]
fn parse_week_trims_the_text_and_takes_signs_and_zeros() {
    let week = parse_week("  35-2021\n").unwrap();
    assert_eq!((week.week(), week.year()), (35, 2021));
    let week = parse_week("+35-+2021").unwrap();
    assert_eq!((week.week(), week.year()), (35, 2021));
    let week = parse_week("0035-02021").unwrap();
    assert_eq!((week.week(), week.year()), (35, 2021));
}

#[test]
fn parse_week_refuses_a_third_field() {
    assert_eq!(
        parse_week("35-2021-anything"),
        Err(Error::NotAWeek("35-2021-anything".to_string()))
    );
    assert_eq!(parse_week("35-2021-"), Err(Error::NotAWeek("35-2021-".to_string())));
    assert_eq!(parse_week("35-2021-1"), Err(Error::NotAWeek("35-2021-1".to_string())));
    assert_eq!(parse_week("35--2021"), Err(Error::NotAWeek("35--2021".to_string())));
    assert_eq!(parse_week("35-x-y"), Err(Error::NotAWeek("35-x-y".to_string())));
}

#[test]
fn parse_week_refuses_week_numbers_outside_1_to_52() {
    assert_eq!(parse_week("0-2021"), Err(Error::InvalidWeekNumber));
    assert_eq!(parse_week("53-2020"), Err(Error::InvalidWeekNumber));
    assert_eq!(parse_week("54-2021"), Err(Error::InvalidWeekNumber));
    assert_eq!(parse_week("4294967295-2021"), Err(Error::InvalidWeekNumber));
    assert_eq!(parse_week("0"), Err(Error::InvalidWeekNumber));
    assert_eq!(parse_week("53-x"), Err(Error::InvalidWeekNumber));
    assert_eq!(parse_week("53-2020-x"), Err(Error::InvalidWeekNumber));
}

#[test]
fn parse_week_refuses_a_year_beyond_the_calendar() {
    assert_eq!(parse_week("35-300000"), Err(Error::InvalidWeekNumber));
    assert_eq!(parse_week("1-2147483647"), Err(Error::InvalidWeekNumber));
    assert_eq!(parse_week("52-2147483647"), Err(Error::InvalidWeekNumber));
    assert_eq!(parse_week("52-+262144"), Err(Error::InvalidWeekNumber));
    assert_eq!(parse_week("52-262143"), Err(Error::InvalidWeekNumber));
    assert_eq!(parse_week("52-262142").unwrap().year(), 262142);
    assert_eq!(parse_week("1-262143").unwrap().year(), 262143);
    assert_eq!(parse_week("2-262143"), Err(Error::InvalidWeekNumber));
}

#[test]
fn parse_week_asks_for_a_year() {
    assert_eq!(parse_week("35"), Err(Error::NotAWeek("35".to_string())));
    assert_eq!(parse_week(" 35 "), Err(Error::NotAWeek(" 35 ".to_string())));
}

#[test]
fn parse_week_reports_what_is_no_number() {
    assert_eq!(parse_week(""), Err(Error::ParseInt(IntErrorKind::Empty)));
    assert_eq!(parse_week("   "), Err(Error::ParseInt(IntErrorKind::Empty)));
    assert_eq!(parse_week("-2021"), Err(Error::ParseInt(IntErrorKind::Empty)));
    assert_eq!(parse_week("x-2021"), Err(Error::ParseInt(IntErrorKind::InvalidDigit)));
    assert_eq!(parse_week("3 5-2021"), Err(Error::ParseInt(IntErrorKind::InvalidDigit)));
    assert_eq!(parse_week("+-2021"), Err(Error::ParseInt(IntErrorKind::InvalidDigit)));
    assert_eq!(parse_week("4294967296-2021"), Err(Error::ParseInt(IntErrorKind::PosOverflow)));
    assert_eq!(parse_week("35-"), Err(Error::ParseInt(IntErrorKind::Empty)));
    assert_eq!(parse_week("x-2021-1"), Err(Error::ParseInt(IntErrorKind::InvalidDigit)));
    assert_eq!(parse_week("35-year"), Err(Error::ParseInt(IntErrorKind::InvalidDigit)));
    assert_eq!(parse_week("35- 2021"), Err(Error::ParseInt(IntErrorKind::InvalidDigit)));
    assert_eq!(parse_week("35-2147483648"), Err(Error::ParseInt(IntErrorKind::PosOverflow)));
}

#[test]
fn parse_u32_reads_as_std_does() {
    for text in numbers() {
        let ours = parse_u32(&chars(text));
        match text.parse::<u32>() {
            Ok(n) => assert_eq!(ours, Ok(n), "{:?}", text),
            Err(e) => assert_eq!(ours, Err(kind_of(&e)), "{:?}", text),
        }
    }
    assert_eq!(parse_u32(&chars("4294967295")), Ok(4294967295));
    assert_eq!(parse_u32(&chars("4294967296")), Err(IntErrorKind::PosOverflow));
    assert_eq!(parse_u32(&chars("-1")), Err(IntErrorKind::InvalidDigit));
}

#[test]
fn parse_i32_reads_as_std_does() {
    for text in numbers() {
        let ours = parse_i32(&chars(text));
        match text.parse::<i32>() {
            Ok(n) => assert_eq!(ours, Ok(n), "{:?}", text),
            Err(e) => assert_eq!(ours, Err(kind_of(&e)), "{:?}", text),
        }
    }
    assert_eq!(parse_i32(&chars("-2147483648")), Ok(-2147483648));
    assert_eq!(parse_i32(&chars("-2147483649")), Err(IntErrorKind::NegOverflow));
    assert_eq!(parse_i32(&chars("2147483648")), Err(IntErrorKind::PosOverflow));
}

#[test]
fn chars_of_gives_the_characters() {
    assert_eq!(chars_of(""), chars(""));
    assert_eq!(chars_of("a-b"), vec!['a', '-', 'b']);
    assert_eq!(chars_of("\u{251c} é\n"), vec!['\u{251c}', ' ', 'é', '\n']);
}

#[test]
fn split_at_gives_one_piece_more_than_separators() {
    let pieces = |text: &str| -> Vec<String> {
        split_at(&chars(text), '-').iter().map(|p| p.iter().collect()).collect()
    };
    for text in ["", "-", "a", "a-b", "a-", "-a", "a--b", "--", "35-2021-x", "é-ü"] {
        let expected: Vec<String> = text.split('-').map(|p| p.to_string()).collect();
        assert_eq!(pieces(text), expected, "{:?}", text);
    }
    assert_eq!(pieces("a--b"), vec!["a", "", "b"]);
}

#[test]
fn trimmed_drops_white_space_at_both_ends() {
    let trim = |text: &str| -> String { trimmed(&chars(text)).iter().collect() };
    for text in [
        "", " ", "a", " a", "a ", "  a b  ", "\t\r\na\u{b}\u{c}", "\u{85}a\u{a0}",
        "\u{1680}\u{2000}\u{200a}a\u{2028}\u{2029}\u{202f}\u{205f}\u{3000}", "\u{200b}a\u{200b}",
        "\n\n", "a\u{feff}",
    ] {
        assert_eq!(trim(text), text.trim(), "{:?}", text);
    }
    assert_eq!(trim("  2023/01/01 08:00:00 \r"), "2023/01/01 08:00:00");
}

#[test]
fn is_space_is_white_space_of_every_character() {
    let mut code: u32 = 0;
    while code <= 0x10ffff {
        if let Some(c) = char::from_u32(code) {
            let kept = trimmed(&vec![c]).len() == 1;
            assert_eq!(kept, !c.is_whitespace(), "{:?}", c);
        }
        code += 1;
    }
}
