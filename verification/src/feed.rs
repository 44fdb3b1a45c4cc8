//! Activation spots: normalizing raw feed records into validated
//! activations and finding the first activation matching a band and mode.

use vstd::prelude::*;
use crate::band::{spec_band_range, Band};
use crate::errors::{ParseError, ParseErrorView};
use crate::freq::{is_number_text, spec_khz_text_hz, Frequency};
use crate::mode::{spec_mode_from, Mode};
use crate::timestamp::{
    spec_ts_day, spec_ts_hour, spec_ts_minute, spec_ts_month, spec_ts_second, spec_ts_year,
    ts_text_wf, valid_date, Timestamp,
};

verus! {

/// A raw spot record as the feed delivers it: all fields free text.
#[derive(Debug)]
pub struct RawSpot {
    pub activator: String,
    pub name: String,
    pub location_desc: String,
    pub mode: String,
    pub frequency: String,
    pub spot_time: String,
}

/// Specification-level image of a raw spot.
pub struct RawSpotView {
    pub activator: Seq<char>,
    pub name: Seq<char>,
    pub location_desc: Seq<char>,
    pub mode: Seq<char>,
    pub frequency: Seq<char>,
    pub spot_time: Seq<char>,
}

impl View for RawSpot {
    type V = RawSpotView;

    open spec fn view(&self) -> RawSpotView {
        RawSpotView {
            activator: self.activator@,
            name: self.name@,
            location_desc: self.location_desc@,
            mode: self.mode@,
            frequency: self.frequency@,
            spot_time: self.spot_time@,
        }
    }
}

/// A validated activation: every scalar field parsed successfully.
#[derive(Debug)]
pub struct Activation {
    pub activator: String,
    pub name: String,
    pub location_desc: String,
    pub mode: Mode,
    pub frequency: Frequency,
    pub spot_time: Timestamp,
}

/// Specification-level image of an activation.
pub struct ActivationView {
    pub activator: Seq<char>,
    pub name: Seq<char>,
    pub location_desc: Seq<char>,
    pub mode: Mode,
    pub frequency: Frequency,
    pub spot_time: Timestamp,
}

impl View for Activation {
    type V = ActivationView;

    open spec fn view(&self) -> ActivationView {
        ActivationView {
            activator: self.activator@,
            name: self.name@,
            location_desc: self.location_desc@,
            mode: self.mode,
            frequency: self.frequency,
            spot_time: self.spot_time,
        }
    }
}

/// Whether a raw spot's frequency field is decimal-kilohertz text whose
/// hertz count fits in 64 bits.
pub open spec fn spot_freq_ok(r: RawSpotView) -> bool {
    is_number_text(r.frequency) && spec_khz_text_hz(r.frequency) <= u64::MAX
}

/// Whether a raw spot's mode field parses: empty means `Unknown`,
/// otherwise it must name a mode.
pub open spec fn spot_mode_ok(r: RawSpotView) -> bool {
    r.mode.len() == 0 || spec_mode_from(r.mode) is Some
}

/// Whether a raw spot's timestamp field is a well-shaped, valid UTC time.
pub open spec fn spot_ts_ok(r: RawSpotView) -> bool {
    ts_text_wf(r.spot_time) && valid_date(
        spec_ts_year(r.spot_time),
        spec_ts_month(r.spot_time),
        spec_ts_day(r.spot_time),
        spec_ts_hour(r.spot_time),
        spec_ts_minute(r.spot_time),
        spec_ts_second(r.spot_time),
    )
}

/// Whether every scalar field of a raw spot parses.
pub open spec fn spot_ok(r: RawSpotView) -> bool {
    spot_freq_ok(r) && spot_mode_ok(r) && spot_ts_ok(r)
}

/// The mode a raw spot's mode field denotes.
pub open spec fn spec_spot_mode(r: RawSpotView) -> Mode {
    if r.mode.len() == 0 {
        Mode::Unknown
    } else {
        spec_mode_from(r.mode)->0
    }
}

/// The activation a fully-parsing raw spot denotes.
pub open spec fn spec_spot_activation(r: RawSpotView) -> ActivationView {
    ActivationView {
        activator: r.activator,
        name: r.name,
        location_desc: r.location_desc,
        mode: spec_spot_mode(r),
        frequency: Frequency(spec_khz_text_hz(r.frequency) as u64),
        spot_time: Timestamp {
            year: spec_ts_year(r.spot_time) as u64,
            month: spec_ts_month(r.spot_time) as u64,
            day: spec_ts_day(r.spot_time) as u64,
            hour: spec_ts_hour(r.spot_time) as u64,
            minute: spec_ts_minute(r.spot_time) as u64,
            second: spec_ts_second(r.spot_time) as u64,
        },
    }
}

/// The error a failing raw spot reports: the frequency field is checked
/// first, then the mode field, then the timestamp field.
pub open spec fn spec_spot_error(r: RawSpotView) -> ParseErrorView {
    if !spot_freq_ok(r) {
        ParseErrorView::InvalidFrequency { text: r.frequency }
    } else if !spot_mode_ok(r) {
        ParseErrorView::InvalidMode { text: r.mode }
    } else {
        ParseErrorView::InvalidTimestamp { text: r.spot_time }
    }
}

impl RawSpot {
    /// Parses every scalar field of the raw spot, rejecting the whole
    /// record on the first field that fails.
    pub fn try_into_activation(&self) -> (r: Result<Activation, ParseError>)
        ensures
            match r {
                Ok(a) => spot_ok(self@) && a@ == spec_spot_activation(self@) && a.spot_time.wf(),
                Err(e) => !spot_ok(self@) && e@ == spec_spot_error(self@),
            },
    {
        let frequency = match Frequency::from_str(self.frequency.as_str()) {
            Ok(f) => f,
            Err(e) => {
                return Err(e);
            },
        };
        let mode = match Mode::from_feed_field(self.mode.as_str()) {
            Ok(m) => m,
            Err(e) => {
                return Err(e);
            },
        };
        let spot_time = match Timestamp::from_str(self.spot_time.as_str()) {
            Ok(t) => t,
            Err(e) => {
                return Err(e);
            },
        };
        Ok(
            Activation {
                activator: self.activator.clone(),
                name: self.name.clone(),
                location_desc: self.location_desc.clone(),
                mode,
                frequency,
                spot_time,
            },
        )
    }
}

/// Converts a whole feed of raw spots, in order; a single failing record
/// fails the whole conversion with that record's error, and no partial
/// list is ever returned.
pub fn normalize_activations(spots: &Vec<RawSpot>) -> (r: Result<Vec<Activation>, ParseError>)
    ensures
        match r {
            Ok(v) => {
                &&& v@.len() == spots@.len()
                &&& forall|i: int| 0 <= i < spots@.len() ==> #[trigger] spot_ok(spots@[i]@)
                &&& forall|i: int|
                    0 <= i < spots@.len() ==> #[trigger] v@[i]@ == spec_spot_activation(
                        spots@[i]@,
                    ) && v@[i].spot_time.wf()
            },
            Err(e) => exists|j: int|
                {
                    &&& 0 <= j < spots@.len()
                    &&& !#[trigger] spot_ok(spots@[j]@)
                    &&& e@ == spec_spot_error(spots@[j]@)
                    &&& forall|k: int| 0 <= k < j ==> #[trigger] spot_ok(spots@[k]@)
                },
        },
{
    let ghost all = spots@;
    let mut out: Vec<Activation> = Vec::new();
    let mut i: usize = 0;
    let n = spots.len();
    while i < n
        invariant
            spots@ == all,
            n == all.len(),
            0 <= i <= n,
            out@.len() == i,
            forall|k: int| 0 <= k < i ==> #[trigger] spot_ok(all[k]@),
            forall|k: int|
                0 <= k < i ==> #[trigger] out@[k]@ == spec_spot_activation(all[k]@)
                    && out@[k].spot_time.wf(),
        decreases n - i,
    {
        let spot = &spots[i];
        match spot.try_into_activation() {
            Ok(a) => {
                out.push(a);
            },
            Err(e) => {
                proof {
                    assert(!spot_ok(all[i as int]@) && e@ == spec_spot_error(all[i as int]@));
                }
                return Err(e);
            },
        }
        i = i + 1;
    }
    Ok(out)
}

/// Whether an activation lies in `band`'s frequency range and has exactly
/// the mode `mode`.
pub open spec fn spec_matches(a: ActivationView, band: Band, mode: Mode) -> bool {
    spec_band_range(band).spec_contains(a.frequency.0 as int) && a.mode == mode
}

/// Scans the activations in their given order and returns the first one
/// inside the band's frequency range with exactly the requested mode; the
/// "most recent" reading trusts the feed's most-recent-first order.
pub fn most_recent_activation<'a>(activations: &'a Vec<Activation>, band: &Band, mode: &Mode) -> (r:
    Option<&'a Activation>)
    ensures
        match r {
            Some(a) => exists|i: int|
                {
                    &&& 0 <= i < activations@.len()
                    &&& #[trigger] spec_matches(activations@[i]@, *band, *mode)
                    &&& *a == activations@[i]
                    &&& forall|j: int|
                        0 <= j < i ==> !#[trigger] spec_matches(activations@[j]@, *band, *mode)
                },
            None => forall|i: int|
                0 <= i < activations@.len() ==> !#[trigger] spec_matches(
                    activations@[i]@,
                    *band,
                    *mode,
                ),
        },
{
    let n = activations.len();
    let mut i: usize = 0;
    let range = band.frequency_range();
    while i < n
        invariant
            n == activations@.len(),
            0 <= i <= n,
            range == spec_band_range(*band),
            forall|j: int| 0 <= j < i ==> !#[trigger] spec_matches(activations@[j]@, *band, *mode),
        decreases n - i,
    {
        let a = &activations[i];
        if a.frequency.in_range(&range) && a.mode == *mode {
            proof {
                assert(spec_matches(activations@[i as int]@, *band, *mode));
            }
            return Some(a);
        }
        proof {
            assert(!spec_matches(activations@[i as int]@, *band, *mode));
        }
        i = i + 1;
    }
    None
}

} // verus!
