use hambot::band::Band;
use hambot::errors::ParseError;
use hambot::freq::Frequency;
use hambot::mode::Mode;

#[test]
fn frequency_parse_exact_hertz() {
    assert_eq!(Frequency::from_str("14074").unwrap(), Frequency(14074000));
    assert_eq!(Frequency::from_str("7123.5").unwrap(), Frequency(7123500));
    assert_eq!(Frequency::from_str("14074.5").unwrap(), Frequency(14074500));
}

#[test]
fn frequency_parse_truncates_past_thousandths() {
    // Truncation, not rounding, past the third fractional digit.
    assert_eq!(Frequency::from_str("14074.5678").unwrap(), Frequency(14074567));
    assert_eq!(Frequency::from_str("1.9999").unwrap(), Frequency(1999));
}

#[test]
fn frequency_parse_rejects_non_numeric() {
    assert!(matches!(
        Frequency::from_str("abc"),
        Err(ParseError::InvalidFrequency { .. })
    ));
    assert!(matches!(Frequency::from_str(""), Err(ParseError::InvalidFrequency { .. })));
    assert!(matches!(Frequency::from_str("."), Err(ParseError::InvalidFrequency { .. })));
    assert!(matches!(
        Frequency::from_str("1.2.3"),
        Err(ParseError::InvalidFrequency { .. })
    ));
    assert!(matches!(
        Frequency::from_str("-5"),
        Err(ParseError::InvalidFrequency { .. })
    ));
    assert!(matches!(
        Frequency::from_str("1e3"),
        Err(ParseError::InvalidFrequency { .. })
    ));
}

#[test]
fn frequency_parse_accepts_bare_fraction_and_trailing_dot() {
    assert_eq!(Frequency::from_str(".5").unwrap(), Frequency(500));
    assert_eq!(Frequency::from_str("14074.").unwrap(), Frequency(14074000));
}

#[test]
fn frequency_display_forms() {
    assert_eq!(Frequency(14074000).render(), "14.074");
    assert_eq!(Frequency(7123500).render(), "7.123.5");
    assert_eq!(Frequency(7100000).render(), "7.100");
    assert_eq!(Frequency(0).render(), "0.000");
    assert_eq!(Frequency(500).render(), "0.000.5");
}

#[test]
fn frequency_mhz_truncates() {
    assert_eq!(Frequency(14074000).mhz(), 14);
    assert_eq!(Frequency(999999).mhz(), 0);
}

#[test]
fn mode_parse_case_insensitive() {
    assert_eq!(Mode::from_str("ft8").unwrap(), Mode::Ft8);
    assert_eq!(Mode::from_str("FT8").unwrap(), Mode::Ft8);
    assert_eq!(Mode::from_str("Ft8").unwrap(), Mode::Ft8);
    assert!(matches!(Mode::from_str("xyz"), Err(ParseError::InvalidMode { .. })));
}

#[test]
fn mode_parse_total_over_the_eleven_names() {
    assert_eq!(Mode::from_str("ft4").unwrap(), Mode::Ft4);
    assert_eq!(Mode::from_str("ssb").unwrap(), Mode::Ssb);
    assert_eq!(Mode::from_str("usb").unwrap(), Mode::Usb);
    assert_eq!(Mode::from_str("lsb").unwrap(), Mode::Lsb);
    assert_eq!(Mode::from_str("cw").unwrap(), Mode::Cw);
    assert_eq!(Mode::from_str("fm").unwrap(), Mode::Fm);
    assert_eq!(Mode::from_str("rtty").unwrap(), Mode::Rtty);
    assert_eq!(Mode::from_str("c4fm").unwrap(), Mode::C4fm);
    assert_eq!(Mode::from_str("psk31").unwrap(), Mode::Psk31);
    assert_eq!(Mode::from_str("dstar").unwrap(), Mode::Dstar);
}

#[test]
fn mode_parse_never_yields_unknown() {
    assert!(matches!(Mode::from_str(""), Err(ParseError::InvalidMode { .. })));
    assert!(matches!(Mode::from_str("unknown"), Err(ParseError::InvalidMode { .. })));
}

#[test]
fn mode_feed_field_empty_is_unknown() {
    assert_eq!(Mode::from_feed_field("").unwrap(), Mode::Unknown);
    assert_eq!(Mode::from_feed_field("cw").unwrap(), Mode::Cw);
    assert!(matches!(Mode::from_feed_field("??"), Err(ParseError::InvalidMode { .. })));
}

#[test]
fn mode_display_canonical() {
    assert_eq!(Mode::Ft8.render(), "FT8");
    assert_eq!(Mode::Psk31.render(), "PSK31");
    assert_eq!(Mode::Unknown.render(), "unknown");
}

#[test]
fn band_parse_case_insensitive() {
    assert_eq!(Band::from_str("20m").unwrap(), Band::B20m);
    assert_eq!(Band::from_str("20M").unwrap(), Band::B20m);
    assert_eq!(Band::from_str("40M").unwrap(), Band::B40m);
    assert!(matches!(Band::from_str("30m"), Err(ParseError::InvalidBand { .. })));
    assert!(matches!(Band::from_str("80m"), Err(ParseError::InvalidBand { .. })));
}

#[test]
fn band_display_keeps_40m_quirk() {
    assert_eq!(Band::B20m.render(), "20m");
    assert_eq!(Band::B40m.render(), "30m");
}

#[test]
fn band_range_membership_is_inclusive() {
    let r20 = Band::B20m.frequency_range();
    assert!(Frequency(14000000).in_range(&r20));
    assert!(Frequency(14350000).in_range(&r20));
    assert!(!Frequency(13999999).in_range(&r20));
    assert!(!Frequency(14350001).in_range(&r20));
    let r40 = Band::B40m.frequency_range();
    assert!(Frequency(7000000).in_range(&r40));
    assert!(Frequency(7300000).in_range(&r40));
    assert!(!Frequency(6999999).in_range(&r40));
    assert!(!Frequency(7300001).in_range(&r40));
}
