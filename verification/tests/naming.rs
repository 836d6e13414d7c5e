use file_transfer::naming::{archive_name, Timestamp};
use file_transfer::text::decimal_string;

#[test]
fn builds_name_with_timestamp() {
    let now = Timestamp::new(2026, 6, 28, 15, 30, 12).unwrap();
    let name = archive_name("/tmp/data", &now);
    assert_eq!(name, "data_2026-06-28_153012.zip");
}

#[test]
fn falls_back_for_root() {
    let now = Timestamp::new(2026, 1, 1, 0, 0, 0).unwrap();
    let name = archive_name("/", &now);
    assert!(name.starts_with("archive_"));
    assert_eq!(name, "archive_2026-01-01_000000.zip");
}

#[test]
fn pads_small_years_and_fields() {
    let now = Timestamp::new(7, 3, 4, 5, 6, 7).unwrap();
    assert_eq!(archive_name("photos", &now), "photos_0007-03-04_050607.zip");
}

#[test]
fn trailing_slash_keeps_folder_name() {
    let now = Timestamp::new(2026, 6, 28, 15, 30, 12).unwrap();
    assert_eq!(archive_name("/tmp/data/", &now), "data_2026-06-28_153012.zip");
}

#[test]
fn timestamp_rejects_impossible_dates() {
    assert!(Timestamp::new(2024, 2, 29, 0, 0, 0).is_some());
    assert!(Timestamp::new(2023, 2, 29, 0, 0, 0).is_none());
    assert!(Timestamp::new(1900, 2, 29, 0, 0, 0).is_none());
    assert!(Timestamp::new(2000, 2, 29, 0, 0, 0).is_some());
    assert!(Timestamp::new(2026, 4, 31, 0, 0, 0).is_none());
    assert!(Timestamp::new(2026, 13, 1, 0, 0, 0).is_none());
    assert!(Timestamp::new(2026, 0, 1, 0, 0, 0).is_none());
    assert!(Timestamp::new(2026, 1, 0, 0, 0, 0).is_none());
    assert!(Timestamp::new(2026, 1, 1, 24, 0, 0).is_none());
    assert!(Timestamp::new(2026, 1, 1, 0, 60, 0).is_none());
    assert!(Timestamp::new(2026, 1, 1, 0, 0, 60).is_none());
    assert!(Timestamp::new(10000, 1, 1, 0, 0, 0).is_some());
    assert!(Timestamp::new(-4, 2, 29, 0, 0, 0).is_some());
    assert!(Timestamp::new(-1, 2, 29, 0, 0, 0).is_none());
}

#[test]
fn decimal_text_of_numbers() {
    assert_eq!(decimal_string(0), "0");
    assert_eq!(decimal_string(7), "7");
    assert_eq!(decimal_string(22), "22");
    assert_eq!(decimal_string(65535), "65535");
    assert_eq!(decimal_string(u64::MAX), "18446744073709551615");
}

#[test]
fn one_second_apart_gives_another_name() {
    let a = Timestamp::new(2026, 6, 28, 15, 30, 12).unwrap();
    let b = Timestamp::new(2026, 6, 28, 15, 30, 13).unwrap();
    let c = Timestamp::new(2026, 6, 28, 15, 30, 12).unwrap();
    assert_ne!(archive_name("/tmp/data", &a), archive_name("/tmp/data", &b));
    assert_eq!(archive_name("/tmp/data", &a), archive_name("/tmp/data", &c));
}

#[test]
fn years_outside_four_digits_carry_their_sign() {
    let far = Timestamp::new(10000, 1, 2, 3, 4, 5).unwrap();
    assert_eq!(archive_name("/tmp/data", &far), "data_+10000-01-02_030405.zip");
    let bc = Timestamp::new(-1, 1, 2, 3, 4, 5).unwrap();
    assert_eq!(archive_name("/tmp/data", &bc), "data_-0001-01-02_030405.zip");
    let older = Timestamp::new(-12345, 12, 31, 23, 59, 59).unwrap();
    assert_eq!(archive_name("/tmp/data", &older), "data_-12345-12-31_235959.zip");
    let zero = Timestamp::new(0, 1, 1, 0, 0, 0).unwrap();
    assert_eq!(archive_name("/tmp/data", &zero), "data_0000-01-01_000000.zip");
}
