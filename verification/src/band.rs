//! Band allocations: a closed enumeration with case-insensitive parsing,
//! a fixed inclusive frequency range per band, and display.

use vstd::prelude::*;
use crate::chars::{lower_seq, to_lower};
use crate::errors::{ParseError, ParseErrorView};
use crate::freq::{Frequency, FrequencyRange};

verus! {

/// A named amateur-radio frequency allocation.
#[derive(Clone, Copy, PartialEq, Eq, Structural, Debug)]
pub enum Band {
    B20m,
    B40m,
}

/// The display name of a band. The 40m band deliberately keeps its
/// long-standing display text of "30m", which differs from its parse key.
pub open spec fn spec_band_name(b: Band) -> Seq<char> {
    match b {
        Band::B20m => "20m"@,
        Band::B40m => "30m"@,
    }
}

/// Case-insensitive parsing over the band names; any other text has no
/// band.
pub open spec fn spec_band_from(s: Seq<char>) -> Option<Band> {
    let l = lower_seq(s);
    if l == "20m"@ {
        Some(Band::B20m)
    } else if l == "40m"@ {
        Some(Band::B40m)
    } else {
        None
    }
}

/// The fixed inclusive frequency range a band owns, in hertz.
pub open spec fn spec_band_range(b: Band) -> FrequencyRange {
    match b {
        Band::B20m => FrequencyRange { low: Frequency(14000000), high: Frequency(14350000) },
        Band::B40m => FrequencyRange { low: Frequency(7000000), high: Frequency(7300000) },
    }
}

/// Lower-casing the band names changes nothing.
proof fn lemma_band_names_lower()
    ensures
        lower_seq("20m"@) == "20m"@,
        lower_seq("40m"@) == "40m"@,
{
    reveal_strlit("20m");
    reveal_strlit("40m");
    assert(lower_seq("20m"@) =~= "20m"@);
    assert(lower_seq("40m"@) =~= "40m"@);
}

/// Whether `s` and `t` hold the same characters up to ASCII case, stated
/// through lower-casing.
fn eq_ignore_case_lower(s: &str, t: &str) -> (r: bool)
    ensures
        r == (lower_seq(s@) == lower_seq(t@)),
{
    let r = crate::chars::eq_ignore_case(s, t);
    proof {
        let su = crate::chars::upper_seq(s@);
        let tu = crate::chars::upper_seq(t@);
        let sl = lower_seq(s@);
        let tl = lower_seq(t@);
        assert(sl.len() == s@.len());
        assert(tl.len() == t@.len());
        assert(su.len() == s@.len());
        assert(tu.len() == t@.len());
        if r {
            assert(sl.len() == tl.len());
            assert forall|k: int| 0 <= k < sl.len() implies sl[k] == tl[k] by {
                assert(su[k] == tu[k]);
                lemma_case_fold(s@[k], t@[k]);
            }
            assert(sl =~= tl);
        } else {
            if sl == tl {
                assert(su.len() == tu.len());
                assert forall|k: int| 0 <= k < su.len() implies su[k] == tu[k] by {
                    assert(sl[k] == tl[k]);
                    lemma_case_fold(s@[k], t@[k]);
                }
                assert(su =~= tu);
            }
        }
    }
    r
}

/// Two characters agree after upper-casing exactly when they agree after
/// lower-casing: ASCII case folding is the same partition either way.
proof fn lemma_case_fold(a: char, b: char)
    ensures
        (crate::chars::to_upper(a) == crate::chars::to_upper(b)) <==> (to_lower(a) == to_lower(
            b,
        )),
{
}

impl Band {
    /// Parses band text, accepting the band names in any letter case and
    /// rejecting everything else with the offending text.
    pub fn from_str(value: &str) -> (r: Result<Band, ParseError>)
        ensures
            match r {
                Ok(b) => spec_band_from(value@) == Some(b),
                Err(e) => spec_band_from(value@) is None && e@ == (ParseErrorView::InvalidBand {
                    text: value@,
                }),
            },
    {
        proof {
            lemma_band_names_lower();
        }
        if eq_ignore_case_lower(value, "20m") {
            Ok(Band::B20m)
        } else if eq_ignore_case_lower(value, "40m") {
            Ok(Band::B40m)
        } else {
            Err(ParseError::InvalidBand { text: value.to_owned() })
        }
    }

    /// The inclusive frequency range the band owns.
    pub fn frequency_range(&self) -> (r: FrequencyRange)
        ensures
            r == spec_band_range(*self),
    {
        match self {
            Band::B20m => FrequencyRange { low: Frequency(14000000), high: Frequency(14350000) },
            Band::B40m => FrequencyRange { low: Frequency(7000000), high: Frequency(7300000) },
        }
    }

    /// Renders the band's display name.
    pub fn render(&self) -> (r: String)
        ensures
            r@ == spec_band_name(*self),
    {
        match self {
            Band::B20m => String::from_str("20m"),
            Band::B40m => String::from_str("30m"),
        }
    }
}

} // verus!
