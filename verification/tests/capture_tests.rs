use luminaire::capture::{capture_date_from_bytes, parse_exif_datetime};
use luminaire::Timestamp;

#[test]
fn parses_a_well_formed_embedded_datetime() {
    let t = parse_exif_datetime("2023:05:01 10:00:00").unwrap();
    assert_eq!(t.year, 2023);
    assert_eq!(t.month, 5);
    assert_eq!(t.day, 1);
    assert_eq!(t.hour, 10);
    assert_eq!(t.minute, 0);
    assert_eq!(t.second, 0);
}

#[test]
fn rejects_malformed_datetime_texts() {
    assert!(parse_exif_datetime("").is_none());
    assert!(parse_exif_datetime("2023-05-01 10:00:00").is_none());
    assert!(parse_exif_datetime("2023:05:01T10:00:00").is_none());
    assert!(parse_exif_datetime("2023:05:01 10:00").is_none());
    assert!(parse_exif_datetime("yyyy:mm:dd hh:mm:ss").is_none());
    assert!(parse_exif_datetime("2023:05:01 10:00:00 ").is_none());
}

#[test]
fn rejects_impossible_dates_and_times() {
    assert!(parse_exif_datetime("2023:13:01 10:00:00").is_none());
    assert!(parse_exif_datetime("2023:00:01 10:00:00").is_none());
    assert!(parse_exif_datetime("2023:02:29 10:00:00").is_none());
    assert!(parse_exif_datetime("2023:05:00 10:00:00").is_none());
    assert!(parse_exif_datetime("2023:05:01 24:00:00").is_none());
    assert!(parse_exif_datetime("2023:05:01 10:60:00").is_none());
    assert!(parse_exif_datetime("2023:05:01 10:00:60").is_none());
}

#[test]
fn accepts_leap_day_in_leap_years_only() {
    assert!(parse_exif_datetime("2024:02:29 00:00:00").is_some());
    assert!(parse_exif_datetime("2023:02:29 00:00:00").is_none());
    assert!(parse_exif_datetime("2000:02:29 00:00:00").is_some());
    assert!(parse_exif_datetime("1900:02:29 00:00:00").is_none());
}

/// A minimal little-endian TIFF buffer whose first image carries one Exif
/// field: DateTimeOriginal, ASCII, holding `text` (19 characters).
fn tiff_with_datetime_original(text: &str) -> Vec<u8> {
    assert_eq!(text.len(), 19);
    let mut b: Vec<u8> = vec![
        0x49, 0x49, 0x2A, 0x00, // "II", 42: little-endian TIFF
        0x08, 0x00, 0x00, 0x00, // offset of IFD0
        // IFD0: one entry
        0x01, 0x00, // entry count
        0x69, 0x87, 0x04, 0x00, // tag 0x8769 (Exif IFD pointer), type LONG
        0x01, 0x00, 0x00, 0x00, // count 1
        0x1A, 0x00, 0x00, 0x00, // value: Exif IFD at offset 26
        0x00, 0x00, 0x00, 0x00, // no next IFD
        // Exif IFD at offset 26: one entry
        0x01, 0x00, // entry count
        0x03, 0x90, 0x02, 0x00, // tag 0x9003 (DateTimeOriginal), type ASCII
        0x14, 0x00, 0x00, 0x00, // count 20 (19 characters and a NUL)
        0x2C, 0x00, 0x00, 0x00, // value at offset 44
        0x00, 0x00, 0x00, 0x00, // no next IFD
    ];
    b.extend_from_slice(text.as_bytes());
    b.push(0);
    b
}

#[test]
fn reads_the_capture_date_out_of_image_bytes() {
    let bytes = tiff_with_datetime_original("2023:05:01 10:00:00");
    let t = capture_date_from_bytes(&bytes).unwrap();
    assert_eq!(
        t,
        Timestamp { year: 2023, month: 5, day: 1, hour: 10, minute: 0, second: 0 }
    );
}

#[test]
fn corrupt_or_foreign_bytes_yield_no_capture_date() {
    assert!(capture_date_from_bytes(&[]).is_none());
    assert!(capture_date_from_bytes(b"not an image at all").is_none());
    // a readable container whose embedded text is not a datetime
    let bytes = tiff_with_datetime_original("not a date, sorry!!");
    assert!(capture_date_from_bytes(&bytes).is_none());
}
