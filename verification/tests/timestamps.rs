use hambot::errors::ParseError;
use hambot::timestamp::Timestamp;

#[test]
fn parse_well_shaped_text() {
    let t = Timestamp::from_str("2024-01-02T03:04:05").unwrap();
    assert_eq!(t, Timestamp { year: 2024, month: 1, day: 2, hour: 3, minute: 4, second: 5 });
}

#[test]
fn reject_malformed_shapes() {
    for bad in [
        "2024-01-02 03:04:05",
        "2024-01-02T03:04",
        "24-01-02T03:04:05",
        "2024/01/02T03:04:05",
        "",
        "2024-01-02T03:04:0x",
    ] {
        assert!(matches!(
            Timestamp::from_str(bad),
            Err(ParseError::InvalidTimestamp { .. })
        ));
    }
}

#[test]
fn reject_impossible_calendar_times() {
    for bad in [
        "2026-02-30T00:00:00",
        "2023-02-29T00:00:00",
        "2026-13-01T00:00:00",
        "2026-00-01T00:00:00",
        "2026-01-00T00:00:00",
        "2026-01-32T00:00:00",
        "2026-01-01T24:00:00",
        "2026-01-01T00:60:00",
        "2026-01-01T00:00:60",
    ] {
        assert!(matches!(
            Timestamp::from_str(bad),
            Err(ParseError::InvalidTimestamp { .. })
        ));
    }
}

#[test]
fn leap_day_only_in_leap_years() {
    assert!(Timestamp::from_str("2024-02-29T12:00:00").is_ok());
    assert!(Timestamp::from_str("2000-02-29T12:00:00").is_ok());
    assert!(Timestamp::from_str("1900-02-29T12:00:00").is_err());
}

#[test]
fn epoch_of_the_epoch_is_zero() {
    let t = Timestamp::from_str("1970-01-01T00:00:00").unwrap();
    assert_eq!(t.epoch_seconds(), 0);
}

#[test]
fn epoch_matches_chrono() {
    for text in [
        "1970-01-01T00:00:00",
        "1969-12-31T23:59:59",
        "1950-06-15T12:30:45",
        "2000-02-29T01:02:03",
        "2024-01-02T03:04:05",
        "2026-10-12T00:00:00",
        "2099-12-31T23:59:59",
        "0001-01-01T00:00:00",
        "9999-12-31T23:59:59",
    ] {
        let ours = Timestamp::from_str(text).unwrap().epoch_seconds();
        let theirs = chrono::NaiveDateTime::parse_from_str(text, "%Y-%m-%dT%H:%M:%S")
            .unwrap()
            .and_utc()
            .timestamp();
        assert_eq!(ours, theirs, "epoch mismatch for {text}");
    }
}

#[test]
fn render_matches_utc_display() {
    let t = Timestamp::from_str("2024-01-02T03:04:05").unwrap();
    assert_eq!(t.render(), "2024-01-02 03:04:05 UTC");
    let parsed = chrono::NaiveDateTime::parse_from_str("2024-01-02T03:04:05", "%Y-%m-%dT%H:%M:%S")
        .unwrap()
        .and_utc();
    assert_eq!(t.render(), format!("{}", parsed));
}
