use expressing::clock::{decimal_string, now_millis, now_rfc3339, now_unix};
use expressing::dates::{date_range_millis, date_to_millis};

#[test]
fn epoch_start() {
    assert_eq!(date_to_millis("1970-01-01"), Some(0));
    assert_eq!(date_to_millis("1970-01-02"), Some(86_400_000));
    assert_eq!(date_to_millis("1969-12-31"), Some(-86_400_000));
}

#[test]
fn known_dates() {
    // 2023-03-01T00:00:00Z
    assert_eq!(date_to_millis("2023-03-01"), Some(1_677_628_800_000));
    // 2000-01-01T00:00:00Z
    assert_eq!(date_to_millis("2000-01-01"), Some(946_684_800_000));
    // leap day
    assert_eq!(date_to_millis("2024-02-29"), Some(1_709_164_800_000));
}

#[test]
fn impossible_dates_are_rejected() {
    assert_eq!(date_to_millis("2023-02-29"), None);
    assert_eq!(date_to_millis("2023-13-01"), None);
    assert_eq!(date_to_millis("2023-00-10"), None);
    assert_eq!(date_to_millis("2023-04-31"), None);
    assert_eq!(date_to_millis("0000-01-01"), None);
    assert_eq!(date_to_millis("2024-02-30"), None);
    // century years are leap only when divisible by 400
    assert_eq!(date_to_millis("1900-02-29"), None);
    assert!(date_to_millis("2000-02-29").is_some());
}

#[test]
fn malformed_dates_are_rejected() {
    assert_eq!(date_to_millis(""), None);
    assert_eq!(date_to_millis("2023-1-01"), None);
    assert_eq!(date_to_millis("2023/01/01"), None);
    assert_eq!(date_to_millis("20230101"), None);
    assert_eq!(date_to_millis("yyyy-mm-dd"), None);
    assert_eq!(date_to_millis("2023-01-01x"), None);
}

#[test]
fn ranges_cover_whole_days_inclusive() {
    let (a, b) = date_range_millis(Some("1970-01-01"), Some("1970-01-01")).unwrap();
    assert_eq!(a, 0);
    assert_eq!(b, 86_399_999);
    let (a, b) = date_range_millis(Some("2023-03-01"), Some("2023-03-02")).unwrap();
    assert_eq!(a, 1_677_628_800_000);
    assert_eq!(b, 1_677_628_800_000 + 2 * 86_400_000 - 1);
    assert_eq!(date_range_millis(None, Some("2023-03-01")), None);
    assert_eq!(date_range_millis(Some("2023-03-01"), None), None);
    assert_eq!(date_range_millis(Some("bad"), Some("2023-03-01")), None);
}

#[test]
fn clock_readings_are_nonnegative() {
    assert!(now_millis() >= 0);
    assert!(now_unix() >= 0);
    // a real clock reads well after the epoch
    assert!(now_millis() > 1_000_000_000_000);
}

#[test]
fn decimal_rendering() {
    assert_eq!(decimal_string(0), "0");
    assert_eq!(decimal_string(7), "7");
    assert_eq!(decimal_string(10), "10");
    assert_eq!(decimal_string(1_234_567_890), "1234567890");
    assert_eq!(decimal_string(i64::MAX), "9223372036854775807");
    let s = now_rfc3339();
    assert!(!s.is_empty());
    assert!(s.chars().all(|c| c.is_ascii_digit()));
}
