use media_time::{extract_time_components, CivilDateTime, MetaValue};

fn civil(year: i32, month: u8, day: u8, hour: u8, minute: u8, second: u8, nanosecond: u32) -> CivilDateTime {
    CivilDateTime { year, month, day, hour, minute, second, nanosecond }
}

fn text(v: &str) -> MetaValue {
    MetaValue::Str(v.to_string())
}

fn number(v: u64) -> MetaValue {
    MetaValue::Num(v)
}

fn group(entries: Vec<(&str, MetaValue)>) -> MetaValue {
    MetaValue::Group(entries.into_iter().map(|(k, v)| (k.to_string(), v)).collect())
}

#[test]
fn test_extracts_nothing_from_empty_json() {
    let doc = group(vec![]);
    let components = extract_time_components(&doc, None);

    assert!(components.best_local.is_none());
    assert!(components.potential_utc.is_none());
    assert!(components.potential_explicit_offset.is_none());
    assert!(components.potential_file_dt.is_none());
}

#[test]
fn test_best_local_falls_back_to_filename() {
    // No standard capture-time fields, so the filename must be parsed.
    let doc = group(vec![(
        "Other",
        group(vec![("FileName", text("IMG_20240101_123000.jpg"))]),
    )]);
    let components = extract_time_components(&doc, Some("Europe/Amsterdam"));

    assert!(components.best_local.is_some());
    let (local_dt, source) = components.best_local.unwrap();
    assert_eq!(source, "FileName");
    assert_eq!(local_dt, civil(2024, 1, 1, 12, 30, 0, 0));
}

#[test]
fn test_best_local_falls_back_to_filename_w_fallback_tz() {
    // A millisecond-count filename, read in the fallback timezone.
    let doc = group(vec![(
        "Other",
        group(vec![("FileName", text("1597948682906.jpg"))]),
    )]);
    let components = extract_time_components(&doc, Some("Europe/Amsterdam"));

    assert!(components.best_local.is_some());
    let (local_dt, source) = components.best_local.unwrap();
    assert_eq!(source, "FileName");
    assert_eq!(local_dt, civil(2020, 8, 20, 20, 38, 2, 906_000_000));
}

#[test]
fn test_exif_date_is_preferred_over_filename() {
    let doc = group(vec![
        ("Time", group(vec![("DateTimeOriginal", text("2025:02:02 11:11:11"))])),
        ("Other", group(vec![("FileName", text("IMG_20240101_123000.jpg"))])),
    ]);
    let components = extract_time_components(&doc, None);

    assert!(components.best_local.is_some());
    let (local_dt, source) = components.best_local.unwrap();
    assert_eq!(source, "DateTimeOriginal");
    assert_eq!(local_dt, civil(2025, 2, 2, 11, 11, 11, 0));
}

#[test]
fn test_naive_time_priority_logic() {
    // CreateDate is lower priority than DateTimeOriginal.
    let doc = group(vec![(
        "Time",
        group(vec![
            ("CreateDate", text("2023:01:01 10:00:00")),
            ("DateTimeOriginal", text("2024:02:02 12:34:56")),
        ]),
    )]);
    let components = extract_time_components(&doc, None);
    assert!(components.best_local.is_some());

    let (local_dt, source) = components.best_local.unwrap();
    assert_eq!(source, "DateTimeOriginal");
    assert_eq!(local_dt, civil(2024, 2, 2, 12, 34, 56, 0));
}

#[test]
fn test_naive_time_with_parsed_subseconds() {
    // Subseconds are part of the string itself.
    let doc = group(vec![(
        "Time",
        group(vec![("SubSecDateTimeOriginal", text("2024:03:03 11:22:33.123"))]),
    )]);
    let components = extract_time_components(&doc, None);
    let (local_dt, source) = components.best_local.unwrap();

    assert_eq!(source, "SubSecDateTimeOriginal: Parsed SubSeconds");
    assert_eq!(local_dt, civil(2024, 3, 3, 11, 22, 33, 123_000_000));
}

#[test]
fn test_naive_time_with_separate_subsecond_field() {
    // Subseconds live in a separate numeric tag.
    let doc = group(vec![(
        "Time",
        group(vec![
            ("DateTimeOriginal", text("2024:04:04 14:15:16")),
            ("SubSecTimeOriginal", number(456)),
        ]),
    )]);
    let components = extract_time_components(&doc, None);
    let (local_dt, source) = components.best_local.unwrap();

    assert_eq!(source, "DateTimeOriginal + SubSecTimeOriginal");
    assert_eq!(local_dt, civil(2024, 4, 4, 14, 15, 16, 456_000_000));
}

#[test]
fn test_subseconds_not_merged_when_string_has_them() {
    // A companion numeric field must not overwrite a fraction the string
    // already carried.
    let doc = group(vec![(
        "Time",
        group(vec![
            ("SubSecDateTimeOriginal", text("2024:03:03 11:22:33.123")),
            ("SubSecTimeOriginal", number(999)),
        ]),
    )]);
    let components = extract_time_components(&doc, None);
    let (local_dt, source) = components.best_local.unwrap();

    assert_eq!(source, "SubSecDateTimeOriginal: Parsed SubSeconds");
    assert_eq!(local_dt, civil(2024, 3, 3, 11, 22, 33, 123_000_000));
}

#[test]
fn test_utc_time_extraction() {
    // Primary case: a combined GPS date-time field.
    let doc1 = group(vec![(
        "Time",
        group(vec![("GPSDateTime", text("2024:05:05 10:00:00Z"))]),
    )]);
    let components_1 = extract_time_components(&doc1, None);
    let (utc_dt_1, source_1) = components_1.potential_utc.unwrap();
    assert_eq!(source_1, "GPSDateTime");
    assert_eq!(utc_dt_1.to_rfc3339_utc(), "2024-05-05T10:00:00+00:00");

    // Fallback case: separate GPS date and time stamps.
    let doc2 = group(vec![(
        "Time",
        group(vec![
            ("GPSDateStamp", text("2024:06:06")),
            ("GPSTimeStamp", text("11:22:33")),
        ]),
    )]);
    let components_2 = extract_time_components(&doc2, None);
    let (utc_dt_2, source_2) = components_2.potential_utc.unwrap();
    assert_eq!(source_2, "GPSDateStamp/GPSTimeStamp");
    assert_eq!(utc_dt_2.to_rfc3339_utc(), "2024-06-06T11:22:33+00:00");
}

#[test]
fn test_offset_and_file_time_priority() {
    let doc = group(vec![(
        "Time",
        group(vec![
            // Offset: the original-capture field has the highest priority.
            ("OffsetTime", text("+05:00")),
            ("OffsetTimeOriginal", text("-04:00")),
            // File time: the modification date has the highest priority.
            ("FileAccessDate", text("2023:01:01 10:00:00+01:00")),
            ("FileModifyDate", text("2024:07:07 15:00:00-07:00")),
        ]),
    )]);
    let components = extract_time_components(&doc, None);

    assert!(components.potential_explicit_offset.is_some());
    let (secs, parsed_str, source) = components.potential_explicit_offset.unwrap();
    assert_eq!(source, "OffsetTimeOriginal");
    assert_eq!(parsed_str, "-04:00");
    assert_eq!(secs, -4 * 3600);

    assert!(components.potential_file_dt.is_some());
    let (file_dt, file_off, file_source) = components.potential_file_dt.unwrap();
    assert_eq!(file_source, "FileModifyDate");
    assert_eq!(file_dt, civil(2024, 7, 7, 15, 0, 0, 0));
    assert_eq!(file_off, -7 * 3600);
}
