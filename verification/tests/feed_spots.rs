use hambot::band::Band;
use hambot::errors::ParseError;
use hambot::feed::{most_recent_activation, normalize_activations, Activation, RawSpot};
use hambot::freq::Frequency;
use hambot::mode::Mode;
use hambot::timestamp::Timestamp;

fn spot(activator: &str, freq_khz: &str, mode: &str, time: &str) -> RawSpot {
    RawSpot {
        activator: activator.to_string(),
        name: "Some Park".to_string(),
        location_desc: "US-NH".to_string(),
        mode: mode.to_string(),
        frequency: freq_khz.to_string(),
        spot_time: time.to_string(),
    }
}

#[test]
fn normalize_parses_every_field() {
    let spots = vec![spot("K1ABC", "14074.5", "ft8", "2024-01-02T03:04:05")];
    let acts = normalize_activations(&spots).unwrap();
    assert_eq!(acts.len(), 1);
    assert_eq!(acts[0].activator, "K1ABC");
    assert_eq!(acts[0].frequency, Frequency(14074500));
    assert_eq!(acts[0].mode, Mode::Ft8);
    assert_eq!(
        acts[0].spot_time,
        Timestamp { year: 2024, month: 1, day: 2, hour: 3, minute: 4, second: 5 }
    );
}

#[test]
fn non_numeric_frequency_fails_whole_feed() {
    let spots = vec![
        spot("A", "14074", "FT8", "2024-01-02T03:04:05"),
        spot("B", "QRG?", "SSB", "2024-01-02T03:04:05"),
        spot("C", "7100", "CW", "2024-01-02T03:04:05"),
    ];
    assert!(matches!(
        normalize_activations(&spots),
        Err(ParseError::InvalidFrequency { .. })
    ));
}

#[test]
fn bad_mode_fails_whole_feed() {
    let spots = vec![spot("A", "14074", "QRP", "2024-01-02T03:04:05")];
    assert!(matches!(
        normalize_activations(&spots),
        Err(ParseError::InvalidMode { .. })
    ));
}

#[test]
fn bad_timestamp_fails_whole_feed() {
    let spots = vec![spot("A", "14074", "FT8", "2024-01-02 03:04:05")];
    assert!(matches!(
        normalize_activations(&spots),
        Err(ParseError::InvalidTimestamp { .. })
    ));
}

#[test]
fn empty_mode_field_becomes_unknown() {
    let spots = vec![spot("A", "14074", "", "2024-01-02T03:04:05")];
    let acts = normalize_activations(&spots).unwrap();
    assert_eq!(acts[0].mode, Mode::Unknown);
}

fn three_activations() -> Vec<Activation> {
    let spots = vec![
        spot("A", "14074", "FT8", "2024-01-02T03:00:00"),
        spot("B", "14200", "SSB", "2024-01-02T02:00:00"),
        spot("C", "7100", "SSB", "2024-01-02T01:00:00"),
    ];
    normalize_activations(&spots).unwrap()
}

#[test]
fn first_match_respects_mode_not_just_band() {
    let acts = three_activations();
    let found = most_recent_activation(&acts, &Band::B20m, &Mode::Ssb).unwrap();
    assert_eq!(found.activator, "B");
    assert_eq!(found.frequency, Frequency(14200000));
}

#[test]
fn no_match_returns_none() {
    let acts = three_activations();
    assert!(most_recent_activation(&acts, &Band::B40m, &Mode::Ft8).is_none());
}

#[test]
fn first_matching_entry_in_feed_order_wins() {
    let acts = three_activations();
    let found = most_recent_activation(&acts, &Band::B20m, &Mode::Ft8).unwrap();
    assert_eq!(found.activator, "A");
    let found40 = most_recent_activation(&acts, &Band::B40m, &Mode::Ssb).unwrap();
    assert_eq!(found40.activator, "C");
}
