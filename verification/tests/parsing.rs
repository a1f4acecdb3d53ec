use media_time::{
    add_subseconds_from_number, parse_datetime_offset, parse_datetime_utc_z, parse_naive,
    parse_offset_string, CivilDateTime,
};

fn civil(year: i32, month: u8, day: u8, hour: u8, minute: u8, second: u8, nanosecond: u32) -> CivilDateTime {
    CivilDateTime { year, month, day, hour, minute, second, nanosecond }
}

#[test]
fn parses_colon_separated_date() {
    let (dt, has_subsec) = parse_naive("2024:01:01 10:30:00").unwrap();
    assert_eq!(dt, civil(2024, 1, 1, 10, 30, 0, 0));
    assert!(!has_subsec);
}

#[test]
fn parses_hyphen_separated_date() {
    let (dt, has_subsec) = parse_naive("2024-02-02 11:00:00").unwrap();
    assert_eq!(dt, civil(2024, 2, 2, 11, 0, 0, 0));
    assert!(!has_subsec);
}

#[test]
fn parses_with_subseconds() {
    let (dt, has_subsec) = parse_naive("2024:03:03 12:00:00.123").unwrap();
    assert_eq!(dt, civil(2024, 3, 3, 12, 0, 0, 123_000_000));
    assert!(has_subsec);
}

#[test]
fn returns_none_for_invalid_format() {
    assert!(parse_naive("not a date").is_none());
    assert!(parse_naive("2024/01/01 10:30:00").is_none());
}

#[test]
fn parses_exif_offset_format() {
    let (dt, off) = parse_datetime_offset("2024:08:08 10:00:00+02:00").unwrap();
    assert_eq!(dt, civil(2024, 8, 8, 10, 0, 0, 0));
    assert_eq!(off, 2 * 3600);
}

#[test]
fn parses_rfc3339_fallback() {
    let (dt, off) = parse_datetime_offset("2024-09-09T14:30:00-05:00").unwrap();
    assert_eq!(dt, civil(2024, 9, 9, 14, 30, 0, 0));
    assert_eq!(off, -5 * 3600);
}

#[test]
fn returns_none_for_missing_offset() {
    assert!(parse_datetime_offset("2024:08:08 10:00:00").is_none());
}

#[test]
fn parses_gps_datetime_format_with_z() {
    let dt = parse_datetime_utc_z("2024:05:05 10:00:00Z").unwrap();
    assert_eq!(dt.to_rfc3339_utc(), "2024-05-05T10:00:00+00:00");
}

#[test]
fn parses_rfc3339_utc_format() {
    let dt = parse_datetime_utc_z("2024-06-06T11:22:33Z").unwrap();
    assert_eq!(dt.to_rfc3339_utc(), "2024-06-06T11:22:33+00:00");
}

#[test]
fn returns_none_if_not_utc() {
    assert!(parse_datetime_utc_z("2024:05:05 10:00:00").is_none());
}

#[test]
fn parses_positive_offset_with_colon() {
    let (secs, s) = parse_offset_string("+02:00").unwrap();
    assert_eq!(secs, 2 * 3600);
    assert_eq!(s, "+02:00");
}

#[test]
fn parses_negative_offset_without_colon() {
    let (secs, s) = parse_offset_string("-0500").unwrap();
    assert_eq!(secs, -5 * 3600);
    assert_eq!(s, "-0500");
}

#[test]
fn parses_z_as_zero() {
    let (secs, s) = parse_offset_string("Z").unwrap();
    assert_eq!(secs, 0);
    assert_eq!(s, "Z");
}

#[test]
fn returns_none_for_invalid_offset() {
    assert!(parse_offset_string("invalid").is_none());
    assert!(
        parse_offset_string("+15:00").is_none(),
        "Hour offset should be <= 14"
    );
    assert!(
        parse_offset_string("+02:60").is_none(),
        "Minute offset should be <= 59"
    );
}

#[test]
fn parses_extreme_valid_offsets() {
    let (secs, _) = parse_offset_string("+14:00").unwrap();
    assert_eq!(secs, 14 * 3600);
    let (secs, _) = parse_offset_string("-14:00").unwrap();
    assert_eq!(secs, -14 * 3600);
}

#[test]
fn renders_subseconds_in_rfc3339() {
    let dt = parse_datetime_utc_z("2024-06-06T11:22:33.5Z").unwrap();
    assert_eq!(dt.nanosecond, 500_000_000);
    assert_eq!(dt.to_rfc3339_utc(), "2024-06-06T11:22:33.500+00:00");
}

#[test]
fn converts_rfc3339_offset_to_utc() {
    let dt = parse_datetime_utc_z("2024-01-01T00:30:00+02:00").unwrap();
    assert_eq!(dt.to_rfc3339_utc(), "2023-12-31T22:30:00+00:00");
}

fn base_dt() -> CivilDateTime {
    civil(2024, 1, 1, 0, 0, 0, 0)
}

#[test]
fn adds_three_digit_subseconds() {
    let dt = add_subseconds_from_number(base_dt(), 123);
    assert_eq!(dt.nanosecond, 123_000_000);
}

#[test]
fn adds_six_digit_subseconds() {
    let dt = add_subseconds_from_number(base_dt(), 123456);
    assert_eq!(dt.nanosecond, 123_456_000);
}

#[test]
fn adds_one_digit_subseconds() {
    let dt = add_subseconds_from_number(base_dt(), 7);
    assert_eq!(dt.nanosecond, 700_000_000);
}

#[test]
fn handles_zero_correctly() {
    let dt = add_subseconds_from_number(base_dt(), 0);
    assert_eq!(dt.nanosecond, 0);
}

#[test]
fn handles_large_numbers_correctly() {
    // Numbers with more than 9 digits are truncated to nanosecond precision.
    let dt = add_subseconds_from_number(base_dt(), 1234567890);
    assert_eq!(dt.nanosecond, 234567890);
}
