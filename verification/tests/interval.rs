use bereal_export::args::{parse_interval, parse_interval_vec, para_in_range};
use bereal_export::time::DateTime;

#[test]
fn parses_example_value() {
    let result =
        parse_interval_vec("2024-02-10+2022-01-19T13:51:00,2021-08-19T20:11:32+2021-09-20T20:11:32");
    assert!(result.is_ok());
    assert_eq!(result.unwrap().len(), 2)
}

#[test]
fn fail_on_pair_invalid_extra_1() {
    let result = parse_interval_vec("2024-02-10+2022-01-19T13:51:00+");
    assert!(result.is_err());
}

#[test]
fn fail_on_pair_invalid_extra_2() {
    let result = parse_interval_vec("+2024-02-10+2022-01-19T13:51:00");
    assert!(result.is_err());
}

#[test]
fn fail_on_pair_invalid_extra_3() {
    let result = parse_interval_vec("2024-02-10++2022-01-19T13:51:00");
    assert!(result.is_err());
}

#[test]
fn fail_on_pair_invalid_extra_4() {
    let result = parse_interval_vec("++2024-02-10++2022-01-19T13:51:00+");
    assert!(result.is_err());
}

#[test]
fn do_not_fail_on_list_dangling_pre() {
    let result = parse_interval_vec(",2024-02-10+2022-01-19T13:51:00");
    assert!(result.is_ok());
    assert_eq!(result.unwrap().len(), 1)
}

#[test]
fn do_not_fail_on_list_dangling_post() {
    let result = parse_interval_vec("2024-02-10+2022-01-19T13:51:00,");
    assert!(result.is_ok());
    assert_eq!(result.unwrap().len(), 1)
}

#[test]
fn do_not_fail_on_list_dangling_mid() {
    let result = parse_interval_vec(
        "2024-02-10+2022-01-19T13:51:00,,2021-08-19T20:11:32+2021-09-20T20:11:32",
    );
    assert!(result.is_ok());
    assert_eq!(result.unwrap().len(), 2)
}

#[test]
fn interval_sorts_endpoints() {
    let interval = parse_interval("2024-02-10+2022-01-19T13:51:00").unwrap();
    assert_eq!(interval.from, DateTime::new(2022, 1, 19, 13, 51, 0, 0).unwrap());
    assert_eq!(interval.to, DateTime::new(2024, 2, 10, 0, 0, 0, 0).unwrap());
}

#[test]
fn interval_rejects_bad_date() {
    assert!(parse_interval("2024-13-10+2022-01-19").is_err());
    assert!(parse_interval("2023-02-29+2022-01-19").is_err());
}

#[test]
fn parallelism_accepts_percentages() {
    assert_eq!(para_in_range("0"), Ok(0));
    assert_eq!(para_in_range("100"), Ok(100));
    assert_eq!(para_in_range("+42"), Ok(42));
}

#[test]
fn parallelism_rejects_out_of_range_and_junk() {
    assert!(para_in_range("101").is_err());
    assert!(para_in_range("99999999999999999999999999").is_err());
    assert!(para_in_range("abc").is_err());
    assert!(para_in_range("").is_err());
    assert!(para_in_range("-1").is_err());
    assert!(para_in_range("4 ").is_err());
    assert_eq!(para_in_range("abc").unwrap_err(), "`abc` isn't number");
    assert_eq!(
        para_in_range("101").unwrap_err(),
        "parallelism percentage not in range 0-100"
    );
}
