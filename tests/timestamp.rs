use network_device_logger::timestamp::{from_db_text, month_length, to_db_text, Timestamp};

fn ts(year: i32, month: u32, day: u32, hour: u32, minute: u32, second: u32, nanosecond: u32) -> Timestamp {
    Timestamp { year, month, day, hour, minute, second, nanosecond }
}

#[test]
fn db_text_layout() {
    assert_eq!(to_db_text(&ts(2024, 3, 7, 5, 4, 9, 999_999_999)), "2024-03-07 05:04:09");
    assert_eq!(to_db_text(&ts(987, 12, 31, 23, 59, 59, 0)), "0987-12-31 23:59:59");
}

#[test]
fn db_text_round_trip_truncates() {
    let t = ts(2023, 11, 2, 14, 15, 16, 123_456_789);
    let back = from_db_text(&to_db_text(&t)).unwrap();
    assert_eq!(back, t.truncated());
    assert_eq!(back.nanosecond, 0);
    assert_eq!(back.second, 16);
}

#[test]
fn db_text_rejects_malformed() {
    assert_eq!(from_db_text("2024-02-30 00:00:00"), None);
    assert_eq!(from_db_text("2023-02-29 00:00:00"), None);
    assert!(from_db_text("2024-02-29 00:00:00").is_some());
    assert_eq!(from_db_text("2024-13-01 00:00:00"), None);
    assert_eq!(from_db_text("2024-01-01 24:00:00"), None);
    assert_eq!(from_db_text("2024-01-01T00:00:00"), None);
    assert_eq!(from_db_text("2024-01-01 00:00"), None);
    assert_eq!(from_db_text("2024-01-0a 00:00:00"), None);
    assert_eq!(from_db_text(""), None);
}

#[test]
fn month_lengths() {
    assert_eq!(month_length(2024, 2), 29);
    assert_eq!(month_length(1900, 2), 28);
    assert_eq!(month_length(2000, 2), 29);
    assert_eq!(month_length(2023, 4), 30);
    assert_eq!(month_length(2023, 12), 31);
}

#[test]
fn chronological_order() {
    let a = ts(2024, 1, 1, 0, 0, 0, 0);
    let b = ts(2024, 1, 1, 0, 0, 0, 1);
    let c = ts(2023, 12, 31, 23, 59, 59, 999);
    assert!(a.is_before(&b));
    assert!(!b.is_before(&a));
    assert!(c.is_before(&a));
    assert!(!a.is_before(&a));
    assert!(ts(2024, 2, 1, 0, 0, 0, 0).is_valid());
    assert!(!ts(2024, 2, 30, 0, 0, 0, 0).is_valid());
}
