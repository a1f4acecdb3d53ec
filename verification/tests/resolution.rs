use media_time::{get_time_info, CivilDateTime, MetaValue, TimeError};

fn civil(year: i32, month: u8, day: u8, hour: u8, minute: u8, second: u8, nanosecond: u32) -> CivilDateTime {
    CivilDateTime { year, month, day, hour, minute, second, nanosecond }
}

fn text(v: &str) -> MetaValue {
    MetaValue::Str(v.to_string())
}

fn number(v: u64) -> MetaValue {
    MetaValue::Num(v)
}

fn group(entries: Vec<(&str, MetaValue)>) -> MetaValue {
    MetaValue::Group(entries.into_iter().map(|(k, v)| (k.to_string(), v)).collect())
}

fn zone_of(longitude: f64, latitude: f64) -> String {
    let finder = tzf_rs::DefaultFinder::new();
    finder.get_tz_name(longitude, latitude).to_string()
}

fn full_exif() -> MetaValue {
    group(vec![
        (
            "Time",
            group(vec![
                ("FileModifyDate", text("2025:02:26 19:14:06+01:00")),
                ("ModifyDate", text("2017:11:06 11:03:20")),
                ("GPSDateStamp", text("2017:11:06")),
                ("GPSTimeStamp", text("10:03:19")),
                ("CreateDate", text("2017:11:06 11:03:20")),
                ("SubSecTimeOriginal", number(123953)),
                ("DateTimeOriginal", text("2017:11:06 11:03:20")),
                ("SubSecDateTimeOriginal", text("2017:11:06 11:03:20.123953")),
                ("GPSDateTime", text("2017:11:06 10:03:19Z")),
            ]),
        ),
        (
            "Location",
            group(vec![
                ("GPSLatitude", text("53 deg 12' 45.68\" N")),
                ("GPSLongitude", text("6 deg 33' 46.93\" E")),
            ]),
        ),
    ])
}

fn basic_exif() -> MetaValue {
    group(vec![(
        "Time",
        group(vec![
            ("FileModifyDate", text("2011:01:01 15:26:40+01:00")),
            ("ModifyDate", text("2011:01:01 16:26:30")),
            ("DateTimeOriginal", text("                    ")),
            ("CreateDate", text("                    ")),
        ]),
    )])
}

#[test]
fn test_priority1_confirmed_utc_from_cluster_jpg() {
    let exif = full_exif();
    // GPS coordinates for Groningen, NL.
    let zone = zone_of(6.563036, 53.212688);

    let info = get_time_info(&exif, Some(&zone), None).unwrap();

    // UTC comes directly from GPSDateTime because it is confirmed.
    assert_eq!(
        info.datetime_utc.unwrap().to_rfc3339_utc(),
        "2017-11-06T10:03:19+00:00"
    );
    // Local time is the high-precision value from SubSecDateTimeOriginal.
    assert_eq!(info.datetime_local, civil(2017, 11, 6, 11, 3, 20, 123_953_000));
    // The timezone is identified from GPS and used for confirmation.
    assert_eq!(info.timezone.as_ref().unwrap().name, "Europe/Amsterdam");
    assert_eq!(info.timezone.as_ref().unwrap().offset_seconds, 3600);
    assert_eq!(info.source_details.confidence, "High");
    assert!(info.timezone.unwrap().source.contains("confirmed by"));
}

#[test]
fn test_priority5_guessed_offset_from_pict0017() {
    let exif = basic_exif();
    // No GPS, no fallback timezone.
    let info = get_time_info(&exif, None, None).unwrap();

    // best_local comes from ModifyDate since DateTimeOriginal is blank.
    assert_eq!(info.datetime_local, civil(2011, 1, 1, 16, 26, 30, 0));
    // The offset is guessed from FileModifyDate.
    assert_eq!(info.timezone.as_ref().unwrap().name, "+01:00");
    assert_eq!(info.timezone.as_ref().unwrap().offset_seconds, 3600);
    assert_eq!(info.timezone.unwrap().source, "Guessed from FileModifyDate");
    // The UTC time is calculated from the local time and the guessed offset.
    assert_eq!(
        info.datetime_utc.unwrap().to_rfc3339_utc(),
        "2011-01-01T15:26:30+00:00"
    );
    assert_eq!(info.source_details.confidence, "Medium");
}

#[test]
fn test_priority6_naive_with_fallback_timezone() {
    let exif = basic_exif();
    let info = get_time_info(&exif, None, Some("Europe/Paris")).unwrap();

    assert_eq!(info.datetime_local, civil(2011, 1, 1, 16, 26, 30, 0));
    // A file time is present, so its offset is guessed before any
    // fallback-zone consideration.
    assert_eq!(info.timezone.as_ref().unwrap().name, "+01:00");
    assert_eq!(info.timezone.unwrap().source, "Guessed from FileModifyDate");
    assert_eq!(
        info.datetime_utc.unwrap().to_rfc3339_utc(),
        "2011-01-01T15:26:30+00:00"
    );
    assert_eq!(info.source_details.confidence, "Medium");
}

#[test]
fn test_priority6_naive_only_low_confidence() {
    let exif = group(vec![(
        "Time",
        group(vec![("DateTimeOriginal", text("2023-05-10 10:00:00"))]),
    )]);
    let info = get_time_info(&exif, None, None).unwrap();

    assert_eq!(info.datetime_local, civil(2023, 5, 10, 10, 0, 0, 0));
    // With no other information, UTC and timezone must be absent.
    assert!(info.datetime_utc.is_none());
    assert!(info.timezone.is_none());
    assert_eq!(info.source_details.confidence, "Low");
}

#[test]
fn test_priority7_utc_only_with_fallback_timezone() {
    let exif = group(vec![(
        "Time",
        group(vec![("GPSDateTime", text("2022-08-15T18:00:00Z"))]),
    )]);
    let info = get_time_info(&exif, None, Some("America/New_York")).unwrap();

    // UTC is known and accurate.
    assert_eq!(
        info.datetime_utc.unwrap().to_rfc3339_utc(),
        "2022-08-15T18:00:00+00:00"
    );
    // With no independent local reading, the local field is the naive
    // projection of the UTC value; the fallback zone only affects filename
    // millisecond counts.
    assert_eq!(info.datetime_local, civil(2022, 8, 15, 18, 0, 0, 0));
    assert_eq!(info.timezone.as_ref().unwrap().name, "UTC");
    assert_eq!(info.timezone.as_ref().unwrap().offset_seconds, 0);
    assert_eq!(info.timezone.unwrap().source, "GPSDateTime");
    assert_eq!(info.source_details.confidence, "High");
}

#[test]
fn test_round_trip_amsterdam_summer() {
    // A local capture time with GPS coordinates in Amsterdam in summer:
    // zoned resolution must give CEST (+02:00) and the matching UTC instant.
    let exif = group(vec![(
        "Time",
        group(vec![("DateTimeOriginal", text("2024:07:01 15:00:00"))]),
    )]);
    let zone = zone_of(4.900, 52.379);
    let info = get_time_info(&exif, Some(&zone), None).unwrap();

    assert_eq!(info.source_details.confidence, "High");
    assert!(info.timezone.as_ref().unwrap().name.contains("Amsterdam"));
    assert_eq!(info.timezone.as_ref().unwrap().offset_seconds, 7200);
    assert_eq!(
        info.datetime_utc.unwrap().to_rfc3339_utc(),
        "2024-07-01T13:00:00+00:00"
    );
}

#[test]
fn test_filename_fallback_low_confidence() {
    // An otherwise empty document with only a filename yields a naive-only
    // result at low confidence.
    let exif = group(vec![(
        "Other",
        group(vec![("FileName", text("IMG_20240101_123000.jpg"))]),
    )]);
    let info = get_time_info(&exif, None, None).unwrap();

    assert_eq!(info.datetime_local, civil(2024, 1, 1, 12, 30, 0, 0));
    assert_eq!(info.source_details.time_source, "FileName");
    assert_eq!(info.source_details.confidence, "Low");
    assert!(info.datetime_utc.is_none());
    assert!(info.timezone.is_none());
}

#[test]
fn test_empty_document_fails_with_extraction_error() {
    let exif = group(vec![]);
    let result = get_time_info(&exif, None, None);
    assert_eq!(result, Err(TimeError::Extraction));
}

#[test]
fn test_dst_fall_back_prefers_earlier_instant() {
    // 02:30 on 2024-10-27 happens twice in Amsterdam; the earlier instant
    // (still CEST, +02:00) must win, deterministically.
    let exif = group(vec![(
        "Time",
        group(vec![("DateTimeOriginal", text("2024:10:27 02:30:00"))]),
    )]);
    let info = get_time_info(&exif, Some("Europe/Amsterdam"), None).unwrap();

    assert_eq!(info.timezone.as_ref().unwrap().offset_seconds, 7200);
    assert_eq!(
        info.datetime_utc.unwrap().to_rfc3339_utc(),
        "2024-10-27T00:30:00+00:00"
    );
}

#[test]
fn test_gps_tolerance_boundary() {
    // Amsterdam in winter is +01:00, so local 12:00:00 means 11:00:00 UTC.
    // A GPS time ten seconds away is confirmed; eleven seconds is not.
    let confirmed = group(vec![(
        "Time",
        group(vec![
            ("DateTimeOriginal", text("2024:01:01 12:00:00")),
            ("GPSDateTime", text("2024:01:01 10:59:50Z")),
        ]),
    )]);
    let info = get_time_info(&confirmed, Some("Europe/Amsterdam"), None).unwrap();
    assert_eq!(
        info.datetime_utc.unwrap().to_rfc3339_utc(),
        "2024-01-01T10:59:50+00:00"
    );
    assert!(info.timezone.unwrap().source.contains("confirmed by"));

    let unconfirmed = group(vec![(
        "Time",
        group(vec![
            ("DateTimeOriginal", text("2024:01:01 12:00:00")),
            ("GPSDateTime", text("2024:01:01 10:59:49Z")),
        ]),
    )]);
    let info = get_time_info(&unconfirmed, Some("Europe/Amsterdam"), None).unwrap();
    // The sources disagree: the zoned interpretation wins instead.
    assert_eq!(
        info.datetime_utc.unwrap().to_rfc3339_utc(),
        "2024-01-01T11:00:00+00:00"
    );
    assert_eq!(info.timezone.unwrap().source, "IANA from GPS");
}

#[test]
fn test_higher_priority_level_wins() {
    // A confirmable GPS pair and a file time coexist: the result must
    // reflect the confirmed level, never the guessed-offset fallback.
    let exif = group(vec![(
        "Time",
        group(vec![
            ("DateTimeOriginal", text("2024:01:01 12:00:00")),
            ("GPSDateTime", text("2024:01:01 11:00:00Z")),
            ("FileModifyDate", text("2024:01:01 05:00:00-07:00")),
        ]),
    )]);
    let info = get_time_info(&exif, Some("Europe/Amsterdam"), None).unwrap();

    assert_eq!(info.source_details.confidence, "High");
    assert_eq!(info.source_details.time_source, "DateTimeOriginal");
    assert!(info.timezone.unwrap().source.contains("confirmed by"));
}

#[test]
fn test_explicit_offset_level() {
    let exif = group(vec![(
        "Time",
        group(vec![
            ("DateTimeOriginal", text("2024:03:03 09:00:00")),
            ("OffsetTimeOriginal", text("-04:00")),
        ]),
    )]);
    let info = get_time_info(&exif, None, None).unwrap();

    assert_eq!(info.datetime_local, civil(2024, 3, 3, 9, 0, 0, 0));
    assert_eq!(info.timezone.as_ref().unwrap().name, "-04:00");
    assert_eq!(info.timezone.as_ref().unwrap().offset_seconds, -4 * 3600);
    assert_eq!(info.timezone.unwrap().source, "OffsetTimeOriginal");
    assert_eq!(
        info.datetime_utc.unwrap().to_rfc3339_utc(),
        "2024-03-03T13:00:00+00:00"
    );
    assert_eq!(info.source_details.confidence, "High");
}

#[test]
fn test_hybrid_local_and_utc_level() {
    let exif = group(vec![(
        "Time",
        group(vec![
            ("DateTimeOriginal", text("2024:05:05 12:00:00")),
            ("GPSDateTime", text("2024:05:05 10:00:00Z")),
        ]),
    )]);
    let info = get_time_info(&exif, None, None).unwrap();

    assert_eq!(info.datetime_local, civil(2024, 5, 5, 12, 0, 0, 0));
    assert_eq!(
        info.datetime_utc.unwrap().to_rfc3339_utc(),
        "2024-05-05T10:00:00+00:00"
    );
    assert_eq!(info.timezone.as_ref().unwrap().name, "UTC");
    assert_eq!(
        info.source_details.time_source,
        "DateTimeOriginal + GPSDateTime"
    );
    assert_eq!(info.source_details.confidence, "Medium");
}

#[test]
fn test_file_time_only_level() {
    let exif = group(vec![(
        "Time",
        group(vec![("FileModifyDate", text("2024:07:07 15:00:00-07:00"))]),
    )]);
    let info = get_time_info(&exif, None, None).unwrap();

    assert_eq!(info.datetime_local, civil(2024, 7, 7, 15, 0, 0, 0));
    assert_eq!(info.timezone.as_ref().unwrap().name, "-07:00");
    assert_eq!(info.timezone.as_ref().unwrap().offset_seconds, -7 * 3600);
    assert_eq!(info.timezone.unwrap().source, "FileModifyDate");
    assert_eq!(
        info.datetime_utc.unwrap().to_rfc3339_utc(),
        "2024-07-07T22:00:00+00:00"
    );
    assert_eq!(info.source_details.confidence, "Low");
}

#[test]
fn test_error_message_text() {
    let err = TimeError::Extraction;
    assert_eq!(
        err.message(),
        "Could not extract any usable time metadata from the file"
    );
}
