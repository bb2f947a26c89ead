use sqltext::strings::{get_last_n_chars, unescape_text};
use sqltext::text::{i64_to_string, parse_i64};
use sqltext::timestamp::{parse_stamp_text, Timestamp};

#[test]
fn test_get_last_n_chars() {
    let input: &str = "The customer's order";
    assert_eq!(get_last_n_chars(&input, 3), "der");
}

#[test]
fn test_get_last_n_chars_edges() {
    assert_eq!(get_last_n_chars("abc", 0), "");
    assert_eq!(get_last_n_chars("abc", 3), "abc");
    assert_eq!(get_last_n_chars("abc", 10), "abc");
    assert_eq!(get_last_n_chars("", 2), "");
}

#[test]
fn test_unescape_text() {
    assert_eq!(unescape_text("O''Brien''s test"), "O'Brien's test");
    assert_eq!(unescape_text("no quotes"), "no quotes");
    assert_eq!(unescape_text(""), "");
}

#[test]
fn test_i64_to_string_values() {
    assert_eq!(i64_to_string(0), "0");
    assert_eq!(i64_to_string(-7), "-7");
    assert_eq!(i64_to_string(i64::MAX), "9223372036854775807");
    assert_eq!(i64_to_string(i64::MIN), "-9223372036854775808");
}

#[test]
fn test_parse_i64_values() {
    assert_eq!(parse_i64("10"), Some(10));
    assert_eq!(parse_i64("+10"), Some(10));
    assert_eq!(parse_i64("-10"), Some(-10));
    assert_eq!(parse_i64("9223372036854775807"), Some(i64::MAX));
    assert_eq!(parse_i64("-9223372036854775808"), Some(i64::MIN));
    assert_eq!(parse_i64("9223372036854775808"), None);
    assert_eq!(parse_i64("-9223372036854775809"), None);
    assert_eq!(parse_i64(""), None);
    assert_eq!(parse_i64("+"), None);
    assert_eq!(parse_i64("10x"), None);
    assert_eq!(parse_i64("1 0"), None);
}

#[test]
fn test_timestamp_new_validates_calendar() {
    assert!(Timestamp::new(2024, 2, 29, 0, 0, 0).is_some());
    assert!(Timestamp::new(2023, 2, 29, 0, 0, 0).is_none());
    assert!(Timestamp::new(1900, 2, 29, 0, 0, 0).is_none());
    assert!(Timestamp::new(2000, 2, 29, 0, 0, 0).is_some());
    assert!(Timestamp::new(2023, 4, 31, 0, 0, 0).is_none());
    assert!(Timestamp::new(2023, 12, 31, 23, 59, 59).is_some());
    assert!(Timestamp::new(2023, 12, 31, 24, 0, 0).is_none());
    assert!(Timestamp::new(2023, 0, 1, 0, 0, 0).is_none());
}

#[test]
fn test_parse_stamp_text_values() {
    let t = parse_stamp_text("2023-12-25 14:30:45").unwrap();
    assert_eq!(t, Timestamp::new(2023, 12, 25, 14, 30, 45).unwrap());
    assert_eq!(parse_stamp_text("2023-12-25T14:30:45"), None);
    assert_eq!(parse_stamp_text("2023-13-25 14:30:45"), None);
    assert_eq!(parse_stamp_text("2023-12-25 14:30"), None);
    assert_eq!(parse_stamp_text("not a timestamp!!!!"), None);
}
