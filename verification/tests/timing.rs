use bereal_export::time::{parse_date, parse_datetime, parse_timestamp, DateTime};

#[test]
fn parses_a_plain_date_as_midnight() {
    let d = parse_date("2024-02-10").unwrap();
    assert_eq!(d, DateTime::new(2024, 2, 10, 0, 0, 0, 0).unwrap());
    assert!(parse_date("2024-2-10").is_none());
    assert!(parse_date("2024-00-10").is_none());
    assert!(parse_date("2024-04-31").is_none());
}

#[test]
fn parses_a_datetime() {
    let d = parse_datetime("2022-01-19T13:51:00").unwrap();
    assert_eq!(d, DateTime::new(2022, 1, 19, 13, 51, 0, 0).unwrap());
    assert!(parse_datetime("2022-01-19 13:51:00").is_none());
    assert!(parse_datetime("2022-01-19T24:00:00").is_none());
    assert!(parse_datetime("2022-01-19T23:60:00").is_none());
}

#[test]
fn parses_export_timestamps_with_and_without_millis() {
    let d = parse_timestamp("2024-07-22T09:11:05.339Z").unwrap();
    assert_eq!(d, DateTime::new(2024, 7, 22, 9, 11, 5, 339).unwrap());
    let d = parse_timestamp("2024-07-22T09:11:05Z").unwrap();
    assert_eq!(d.millis, 0);
    assert!(parse_timestamp("2024-07-22T09:11:05.33Z").is_none());
    assert!(parse_timestamp("2024-07-22T09:11:05").is_none());
}

#[test]
fn leap_years_follow_the_gregorian_rule() {
    assert!(parse_date("2024-02-29").is_some());
    assert!(parse_date("2023-02-29").is_none());
    assert!(parse_date("1900-02-29").is_none());
    assert!(parse_date("2000-02-29").is_some());
}

#[test]
fn ordering_is_chronological() {
    let a = DateTime::new(2021, 12, 31, 23, 59, 59, 999).unwrap();
    let b = DateTime::new(2022, 1, 1, 0, 0, 0, 0).unwrap();
    assert!(a.le(&b));
    assert!(!b.le(&a));
    assert!(a.le(&a));
    let c = DateTime::new(2021, 12, 31, 23, 59, 59, 998).unwrap();
    assert!(c.le(&a));
    assert!(!a.le(&c));
}
