use hambot::band::Band;
use hambot::feed::{normalize_activations, RawSpot};
use hambot::mode::Mode;
use hambot::router::{format_activation, plan_pota, pota_reply, render_age, with_reply, PotaPlan};
use hambot::timestamp::Timestamp;

#[test]
fn plan_single_word_defaults_to_ssb() {
    assert_eq!(plan_pota("20m"), PotaPlan::Lookup { band: Band::B20m, mode: Mode::Ssb });
    assert_eq!(plan_pota("  40m  "), PotaPlan::Lookup { band: Band::B40m, mode: Mode::Ssb });
}

#[test]
fn plan_two_words_take_the_mode() {
    assert_eq!(plan_pota("20m cw"), PotaPlan::Lookup { band: Band::B20m, mode: Mode::Cw });
    assert_eq!(plan_pota("40m FT8"), PotaPlan::Lookup { band: Band::B40m, mode: Mode::Ft8 });
}

#[test]
fn plan_rejects_bad_band_and_mode() {
    assert_eq!(plan_pota("80m"), PotaPlan::InvalidBand);
    assert_eq!(plan_pota("20m sstv"), PotaPlan::InvalidMode);
    // With two words the mode is checked before the band.
    assert_eq!(plan_pota("80m sstv"), PotaPlan::InvalidMode);
}

#[test]
fn plan_rejects_other_argument_shapes() {
    assert_eq!(plan_pota(""), PotaPlan::Usage);
    assert_eq!(plan_pota("   "), PotaPlan::Usage);
    assert_eq!(plan_pota("20m cw extra"), PotaPlan::Usage);
}

#[test]
fn error_replies_are_the_fixed_texts() {
    assert_eq!(PotaPlan::Usage.error_reply(), "invalid pota command. Usage: pota <band> [mode]");
    assert_eq!(PotaPlan::InvalidBand.error_reply(), "invalid_band");
    assert_eq!(PotaPlan::InvalidMode.error_reply(), "invalid mode");
}

#[test]
fn age_renders_seconds_or_minutes() {
    let t = Timestamp::from_str("2024-01-01T00:00:00").unwrap();
    let e = t.epoch_seconds();
    assert_eq!(render_age(&t, e + 45), "45");
    assert_eq!(render_age(&t, e + 125), "2m5s");
    assert_eq!(render_age(&t, e + 60), "60");
    assert_eq!(render_age(&t, e + 61), "1m1s");
    assert_eq!(render_age(&t, e), "0");
    // A spot in the future ages by the same absolute count.
    assert_eq!(render_age(&t, e - 125), "2m5s");
}

fn feed() -> Vec<hambot::feed::Activation> {
    let spots = vec![
        RawSpot {
            activator: "K1ABC".to_string(),
            name: "Some Park".to_string(),
            location_desc: "US-NH".to_string(),
            mode: "SSB".to_string(),
            frequency: "14200".to_string(),
            spot_time: "2024-01-02T03:04:05".to_string(),
        },
    ];
    normalize_activations(&spots).unwrap()
}

#[test]
fn activation_message_format() {
    let acts = feed();
    let now = acts[0].spot_time.epoch_seconds() + 125;
    let msg = format_activation(&acts[0], now);
    assert_eq!(msg, "[time:2024-01-02 03:04:05 UTC,age:2m5s] 14.200MHz SSB, US-NH - Some Park (K1ABC)");
}

#[test]
fn pota_reply_uses_match_or_no_match_text() {
    let acts = feed();
    let now = acts[0].spot_time.epoch_seconds() + 45;
    let hit = pota_reply(&acts, &Band::B20m, &Mode::Ssb, now);
    assert_eq!(hit, "[time:2024-01-02 03:04:05 UTC,age:45] 14.200MHz SSB, US-NH - Some Park (K1ABC)");
    let miss = pota_reply(&acts, &Band::B20m, &Mode::Cw, now);
    assert_eq!(miss, "no activations found on 20m over CW");
    let miss40 = pota_reply(&acts, &Band::B40m, &Mode::Ssb, now);
    assert_eq!(miss40, "no activations found on 30m over SSB");
}

#[test]
fn replies_carry_the_display_name_prefix() {
    let name = "w1aw".to_string();
    assert_eq!(with_reply(Some(&name), "hello"), "w1aw: hello");
    assert_eq!(with_reply(None, "hello"), "hello");
}
