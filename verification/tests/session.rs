use mobius::calendar::YEAR_ZERO_SECS;
use mobius::error::Error;
use mobius::session::Session;
use mobius::time::Timestamp;
use std::collections::BTreeSet;

fn at(text: &str) -> Timestamp {
    Timestamp::parse(text).unwrap()
}

#[test]
fn ord() {
    let stamps = vec![
        Session::new(at("1991/08/30 01:43:12"), at("1991/08/30 02:43:12")),
        Session::new(at("1991/08/30 13:43:12"), at("1991/08/30 13:57:12")),
        Session::new(at("1991/08/29 13:43:13"), at("1991/08/29 13:43:11")),
    ];

    let ordered: BTreeSet<&Session> = stamps.iter().collect();

    let mut iterator = ordered.into_iter();

    assert_eq!(iterator.next(), Some(&stamps[2]));
    assert_eq!(iterator.next(), Some(&stamps[0]));
    assert_eq!(iterator.next(), Some(&stamps[1]));
}

#[test]
fn is_before_orders_by_start_then_end() {
    let early = Session::new(at("1991/08/29 13:43:13"), at("1991/08/29 13:43:11"));
    let short = Session::new(at("1991/08/30 01:43:12"), at("1991/08/30 02:43:12"));
    let long = Session::new(at("1991/08/30 01:43:12"), at("1991/08/30 03:00:00"));
    assert!(early.is_before(&short));
    assert!(short.is_before(&long));
    assert!(early.is_before(&long));
    assert!(!short.is_before(&early));
    assert!(!long.is_before(&short));
    assert!(!short.is_before(&short));
    assert!(early < short && short < long);
}

#[test]
fn between_takes_an_end_after_the_start() {
    let start = at("2023/01/01 08:00:00");
    let end = at("2023/01/01 10:30:00");
    let session = Session::between(start, end).unwrap();
    assert_eq!(*session.start(), start);
    assert_eq!(*session.end(), end);
    assert!(session.is_well_formed());
    assert_eq!(session.duration().num_seconds(), 9000);
}

#[test]
fn between_refuses_an_end_at_or_before_the_start() {
    let start = at("2023/01/01 08:00:00");
    assert_eq!(Session::between(start, start), Err(Error::ClockSkew));
    assert_eq!(Session::between(start, at("2023/01/01 07:59:59")), Err(Error::ClockSkew));
}

#[test]
fn between_takes_the_shortest_session() {
    let start = at("2023/01/01 08:00:00");
    let session = Session::between(start, at("2023/01/01 08:00:01")).unwrap();
    assert_eq!(session.duration().num_seconds(), 1);
}

#[test]
fn with_start_ends_after_a_start_in_the_past() {
    let start = at("2000/01/01 00:00:00");
    let before = Timestamp::now();
    let session = Session::with_start(start).unwrap();
    assert_eq!(*session.start(), start);
    assert!(session.end() > session.start());
    assert!(*session.end() >= before);
    assert_eq!(
        session.duration().num_seconds(),
        (session.end().secs() - session.start().secs()) as i128
    );
    assert!(session.duration().num_seconds() > 0);
}

#[test]
fn with_start_refuses_a_start_in_the_future() {
    let start = Timestamp::from_secs(Timestamp::now().secs() + 3600).unwrap();
    assert_eq!(Session::with_start(start), Err(Error::ClockSkew));
}

#[test]
fn new_keeps_bounds_in_any_order() {
    let session = Session::new(at("1991/08/29 13:43:13"), at("1991/08/29 13:43:11"));
    assert!(!session.is_well_formed());
    assert_eq!(session.duration().num_seconds(), -2);
}

#[test]
fn to_line_is_start_hyphen_end() {
    let session = Session::new(at("2023/01/01 08:00:00"), at("2023/01/01 10:30:00"));
    assert_eq!(session.to_line(), "2023/01/01 08:00:00-2023/01/01 10:30:00");
}

#[test]
fn to_string_shows_start_length_and_end_time() {
    let session = Session::new(at("2023/01/01 08:00:00"), at("2023/01/01 10:30:00"));
    assert_eq!(session.to_string(), "2023/01/01 08:00:00 -- 02h30m --> 10:30:00");
}

#[test]
fn line_reads_back_as_the_session() {
    let sessions = vec![
        Session::new(at("2023/01/01 08:00:00"), at("2023/01/01 10:30:00")),
        Session::new(at("1991/08/29 13:43:11"), at("1991/08/29 13:43:13")),
        Session::new(at("0000/01/01 00:00:00"), at("9999/12/31 23:59:59")),
        Session::new(at("+10000/01/01 00:00:00"), at("+262142/12/31 23:59:59")),
        Session::new(at("0999/02/28 23:59:59"), at("1000/03/01 00:00:00")),
    ];
    for session in sessions.iter() {
        assert_eq!(Session::parse(&session.to_line()), Ok(*session));
    }
}

#[test]
fn line_of_a_session_that_ends_before_it_starts_does_not_read_back() {
    let session = Session::new(at("1991/08/29 13:43:13"), at("1991/08/29 13:43:11"));
    assert_eq!(session.to_line(), "1991/08/29 13:43:13-1991/08/29 13:43:11");
    assert_eq!(Session::parse(&session.to_line()), Err(Error::ClockSkew));
}

#[test]
fn line_of_a_year_before_zero_does_not_read_back() {
    let start = Timestamp::from_secs(YEAR_ZERO_SECS - 1).unwrap();
    let end = Timestamp::from_secs(YEAR_ZERO_SECS).unwrap();
    let session = Session::new(start, end);
    assert_eq!(session.to_line(), "-0001/12/31 23:59:59-0000/01/01 00:00:00");
    assert!(Session::parse(&session.to_line()).is_err());
}

#[test]
fn parse_reads_two_fields() {
    let session = Session::parse("2023/01/01 08:00:00-2023/01/01 10:30:00").unwrap();
    assert_eq!(session.start().secs(), 1672560000);
    assert_eq!(session.end().secs(), 1672569000);
}

#[test]
fn parse_refuses_an_end_that_is_not_after_the_start() {
    assert_eq!(
        Session::parse("1991/08/29 13:43:13-1991/08/29 13:43:11"),
        Err(Error::ClockSkew)
    );
    assert_eq!(
        Session::parse("2023/01/01 10:30:00-2023/01/01 08:00:00"),
        Err(Error::ClockSkew)
    );
    assert_eq!(
        Session::parse("2023/01/01 08:00:00-2023/01/01 08:00:00"),
        Err(Error::ClockSkew)
    );
    assert!(Session::parse("2023/01/01 08:00:00-2023/01/01 08:00:01").is_ok());
}

#[test]
fn parse_reports_a_third_field_before_an_end_that_is_not_after_the_start() {
    let text = "2023/01/01 10:30:00-2023/01/01 08:00:00-2023/01/01 11:00:00";
    assert_eq!(Session::parse(text), Err(Error::NotASession(text.to_string())));
}

#[test]
fn parse_gives_only_sessions_that_end_after_they_start() {
    let texts = [
        "2023/01/01 08:00:00-2023/01/01 10:30:00",
        "2023/01/01 10:30:00-2023/01/01 08:00:00",
        "0000/01/01 00:00:00-9999/12/31 23:59:59",
        "9999/12/31 23:59:59-0000/01/01 00:00:00",
        "2023/01/01 08:00:00-2023/01/01 08:00:00",
    ];
    for text in texts {
        if let Ok(session) = Session::parse(text) {
            assert!(session.is_well_formed(), "{:?}", text);
            assert!(session.end() > session.start());
        }
    }
}

#[test]
fn parse_reports_a_single_field() {
    assert_eq!(
        Session::parse("2023/01/01 08:00:00"),
        Err(Error::NotASession("2023/01/01 08:00:00".to_string()))
    );
}

#[test]
fn parse_reports_a_third_field() {
    let text = "2023/01/01 08:00:00-2023/01/01 10:30:00-2023/01/01 11:00:00";
    assert_eq!(Session::parse(text), Err(Error::NotASession(text.to_string())));
}

#[test]
fn parse_reports_a_bad_first_field() {
    assert!(matches!(
        Session::parse("yesterday-2023/01/01 10:30:00"),
        Err(Error::ChronoParse(_))
    ));
    assert!(matches!(Session::parse(""), Err(Error::ChronoParse(_))));
    assert!(matches!(Session::parse("x"), Err(Error::ChronoParse(_))));
}

#[test]
fn parse_reports_a_bad_second_field() {
    assert!(matches!(
        Session::parse("2023/01/01 08:00:00-2023/13/01 10:30:00"),
        Err(Error::ChronoParse(_))
    ));
    assert!(matches!(Session::parse("2023/01/01 08:00:00-"), Err(Error::ChronoParse(_))));
}

#[test]
fn parse_reports_a_bad_field_before_a_third_field() {
    assert!(matches!(
        Session::parse("2023/01/01 08:00:00-later-2023/01/01 11:00:00"),
        Err(Error::ChronoParse(_))
    ));
}

#[test]
fn from_str_is_parse() {
    let text = "2023/01/01 08:00:00-2023/01/01 10:30:00";
    assert_eq!(text.parse::<Session>(), Session::parse(text));
    assert_eq!("nothing".parse::<Session>().is_err(), true);
}
