use sitegen::date::{format_date, parse_date, Date};
use sitegen::modules::{fetch_outcome, join_header_values, load_action, FetchOutcome, LoadAction};

#[test]
fn parse_iso_date() {
    assert_eq!(
        parse_date(b"2023-04-07"),
        Some(Date { year: 2023, month: 4, day: 7 })
    );
}

#[test]
fn parse_date_accepts_unpadded_month_and_day() {
    assert_eq!(
        parse_date(b"2023-4-7"),
        Some(Date { year: 2023, month: 4, day: 7 })
    );
    assert_eq!(
        parse_date(b"2023-04-7"),
        Some(Date { year: 2023, month: 4, day: 7 })
    );
    assert_eq!(
        parse_date(b"2023-4-07"),
        Some(Date { year: 2023, month: 4, day: 7 })
    );
    assert_eq!(
        parse_date(b"2023-12-7"),
        Some(Date { year: 2023, month: 12, day: 7 })
    );
}

#[test]
fn parse_date_rejects_bad_forms() {
    assert_eq!(parse_date(b"2023/04/07"), None);
    assert_eq!(parse_date(b"23-04-07"), None);
    assert_eq!(parse_date(b"2023-4--7"), None);
    assert_eq!(parse_date(b""), None);
    assert_eq!(parse_date(b"2023-04-07T00"), None);
}

#[test]
fn parse_date_rejects_impossible_dates() {
    assert_eq!(parse_date(b"2023-13-01"), None);
    assert_eq!(parse_date(b"2023-00-10"), None);
    assert_eq!(parse_date(b"2023-04-31"), None);
    assert_eq!(parse_date(b"2023-04-00"), None);
}

#[test]
fn parse_date_leap_years() {
    assert_eq!(
        parse_date(b"2024-02-29"),
        Some(Date { year: 2024, month: 2, day: 29 })
    );
    assert_eq!(parse_date(b"2023-02-29"), None);
    assert_eq!(parse_date(b"1900-02-29"), None);
    assert_eq!(
        parse_date(b"2000-02-29"),
        Some(Date { year: 2000, month: 2, day: 29 })
    );
}

#[test]
fn format_date_page_form() {
    assert_eq!(
        format_date(&Date { year: 2023, month: 4, day: 7 }),
        b"7 Apr '23".to_vec()
    );
    assert_eq!(
        format_date(&Date { year: 2001, month: 12, day: 31 }),
        b"31 Dec '01".to_vec()
    );
    assert_eq!(
        format_date(&Date { year: 2100, month: 1, day: 1 }),
        b"1 Jan '00".to_vec()
    );
}

#[test]
fn date_bounds() {
    assert_eq!(
        parse_date(b"9999-12-31"),
        Some(Date { year: 9999, month: 12, day: 31 })
    );
    assert_eq!(
        parse_date(b"0000-01-01"),
        Some(Date { year: 0, month: 1, day: 1 })
    );
}

#[test]
fn format_after_parse_round_trip() {
    let d = parse_date(b"2019-09-03").unwrap();
    assert_eq!(format_date(&d), b"3 Sep '19".to_vec());
}

#[test]
fn load_action_by_scheme() {
    assert_eq!(load_action(b"data"), LoadAction::DecodeDataUrl);
    assert_eq!(load_action(b"file"), LoadAction::ReadLocalFile);
    assert_eq!(load_action(b"http"), LoadAction::FetchRemote);
    assert_eq!(load_action(b"https"), LoadAction::FetchRemote);
    assert_eq!(load_action(b"ftp"), LoadAction::Unsupported);
    assert_eq!(load_action(b""), LoadAction::Unsupported);
    assert_eq!(load_action(b"HTTP"), LoadAction::Unsupported);
}

#[test]
fn fetch_outcome_classification() {
    assert_eq!(fetch_outcome(404), FetchOutcome::Absent);
    assert_eq!(fetch_outcome(200), FetchOutcome::UseBody);
    assert_eq!(fetch_outcome(204), FetchOutcome::UseBody);
    assert_eq!(fetch_outcome(299), FetchOutcome::UseBody);
    assert_eq!(fetch_outcome(100), FetchOutcome::Fatal);
    assert_eq!(fetch_outcome(301), FetchOutcome::Fatal);
    assert_eq!(fetch_outcome(399), FetchOutcome::Fatal);
    assert_eq!(fetch_outcome(400), FetchOutcome::Fatal);
    assert_eq!(fetch_outcome(500), FetchOutcome::Fatal);
    assert_eq!(fetch_outcome(599), FetchOutcome::Fatal);
    assert_eq!(fetch_outcome(600), FetchOutcome::Fatal);
}

#[test]
fn header_values_join_with_comma() {
    let vals = vec![b"text/javascript".to_vec(), b"charset=utf-8".to_vec()];
    assert_eq!(join_header_values(&vals), b"text/javascript,charset=utf-8".to_vec());
    let one = vec![b"gzip".to_vec()];
    assert_eq!(join_header_values(&one), b"gzip".to_vec());
    let none: Vec<Vec<u8>> = vec![];
    assert_eq!(join_header_values(&none), b"".to_vec());
}
