use hambot::solar::{format_solar_data, BandData, SolarData, SolarError};

fn entry(name: &str, time: &str, condition: &str) -> BandData {
    BandData {
        name: name.to_string(),
        time: time.to_string(),
        condition: condition.to_string(),
    }
}

#[test]
fn bands_sorted_regardless_of_interleaving() {
    let data = SolarData {
        updated: "01 Jan 2024 0000 GMT".to_string(),
        entries: vec![
            entry("80m-40m", "night", "Good"),
            entry("20m-15m", "day", "Fair"),
            entry("80m-40m", "day", "Poor"),
            entry("20m-15m", "night", "Good"),
        ],
    };
    let lines = format_solar_data(&data).unwrap();
    assert_eq!(
        lines,
        vec![
            "updated 01 Jan 2024 0000 GMT".to_string(),
            "20m-15m - day: Fair, night: Good".to_string(),
            "80m-40m - day: Poor, night: Good".to_string(),
        ]
    );
}

#[test]
fn bands_sorted_other_interleaving_same_output() {
    let data = SolarData {
        updated: "now".to_string(),
        entries: vec![
            entry("b", "day", "1"),
            entry("a", "day", "2"),
            entry("a", "night", "3"),
            entry("b", "night", "4"),
        ],
    };
    let lines = format_solar_data(&data).unwrap();
    assert_eq!(
        lines,
        vec![
            "updated now".to_string(),
            "a - day: 2, night: 3".to_string(),
            "b - day: 1, night: 4".to_string(),
        ]
    );
}

#[test]
fn missing_night_fails_whole_report() {
    let data = SolarData {
        updated: "now".to_string(),
        entries: vec![entry("20m", "day", "Fair")],
    };
    assert!(matches!(
        format_solar_data(&data),
        Err(SolarError::MissingNight { .. })
    ));
}

#[test]
fn missing_day_fails_whole_report() {
    let data = SolarData {
        updated: "now".to_string(),
        entries: vec![entry("20m", "night", "Fair")],
    };
    assert!(matches!(format_solar_data(&data), Err(SolarError::MissingDay { .. })));
}

#[test]
fn duplicate_day_fails_whole_report() {
    let data = SolarData {
        updated: "now".to_string(),
        entries: vec![entry("20m", "day", "Fair"), entry("20m", "day", "Poor")],
    };
    assert!(matches!(
        format_solar_data(&data),
        Err(SolarError::DuplicateDay { .. })
    ));
}

#[test]
fn duplicate_night_fails_whole_report() {
    let data = SolarData {
        updated: "now".to_string(),
        entries: vec![
            entry("20m", "night", "Fair"),
            entry("20m", "day", "Poor"),
            entry("20m", "night", "Poor"),
        ],
    };
    assert!(matches!(
        format_solar_data(&data),
        Err(SolarError::DuplicateNight { .. })
    ));
}

#[test]
fn unknown_period_fails_whole_report() {
    let data = SolarData {
        updated: "now".to_string(),
        entries: vec![entry("20m", "dusk", "Fair")],
    };
    match format_solar_data(&data) {
        Err(SolarError::UnknownPeriod { band, time }) => {
            assert_eq!(band, "20m");
            assert_eq!(time, "dusk");
        }
        other => panic!("expected an unknown-period error, got {:?}", other.is_ok()),
    }
}

#[test]
fn empty_report_has_only_the_header() {
    let data = SolarData { updated: "later".to_string(), entries: vec![] };
    let lines = format_solar_data(&data).unwrap();
    assert_eq!(lines, vec!["updated later".to_string()]);
}
