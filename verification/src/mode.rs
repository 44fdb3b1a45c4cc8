//! Modulation modes: a closed enumeration with case-insensitive parsing
//! over the eleven named modes and a canonical display form.

use vstd::prelude::*;
use crate::chars::{to_upper, upper_seq};
use crate::errors::{ParseError, ParseErrorView};

verus! {

/// A modulation mode. `Unknown` stands for an absent mode field in feed
/// data; it is never produced by text parsing.
#[derive(Clone, Copy, PartialEq, Eq, Structural, Debug)]
pub enum Mode {
    Unknown,
    Ft4,
    Ft8,
    Ssb,
    Usb,
    Lsb,
    Cw,
    Fm,
    Rtty,
    C4fm,
    Psk31,
    Dstar,
}

/// The canonical display name of a mode; `Unknown` renders as a lowercase
/// sentinel word distinct from every real mode name.
pub open spec fn spec_mode_name(m: Mode) -> Seq<char> {
    match m {
        Mode::Ft4 => "FT4"@,
        Mode::Ft8 => "FT8"@,
        Mode::Lsb => "LSB"@,
        Mode::Usb => "USB"@,
        Mode::Ssb => "SSB"@,
        Mode::Cw => "CW"@,
        Mode::Fm => "FM"@,
        Mode::Rtty => "RTTY"@,
        Mode::C4fm => "C4FM"@,
        Mode::Psk31 => "PSK31"@,
        Mode::Dstar => "DSTAR"@,
        Mode::Unknown => "unknown"@,
    }
}

/// Case-insensitive parsing over the eleven named modes; any other text
/// has no mode. `Unknown` is never a parse result.
pub open spec fn spec_mode_from(s: Seq<char>) -> Option<Mode> {
    let u = upper_seq(s);
    if u == "FT4"@ {
        Some(Mode::Ft4)
    } else if u == "FT8"@ {
        Some(Mode::Ft8)
    } else if u == "LSB"@ {
        Some(Mode::Lsb)
    } else if u == "USB"@ {
        Some(Mode::Usb)
    } else if u == "SSB"@ {
        Some(Mode::Ssb)
    } else if u == "CW"@ {
        Some(Mode::Cw)
    } else if u == "FM"@ {
        Some(Mode::Fm)
    } else if u == "RTTY"@ {
        Some(Mode::Rtty)
    } else if u == "C4FM"@ {
        Some(Mode::C4fm)
    } else if u == "PSK31"@ {
        Some(Mode::Psk31)
    } else if u == "DSTAR"@ {
        Some(Mode::Dstar)
    } else {
        None
    }
}

/// Upper-casing the eleven canonical names changes nothing.
proof fn lemma_names_upper()
    ensures
        upper_seq("FT4"@) == "FT4"@,
        upper_seq("FT8"@) == "FT8"@,
        upper_seq("LSB"@) == "LSB"@,
        upper_seq("USB"@) == "USB"@,
        upper_seq("SSB"@) == "SSB"@,
        upper_seq("CW"@) == "CW"@,
        upper_seq("FM"@) == "FM"@,
        upper_seq("RTTY"@) == "RTTY"@,
        upper_seq("C4FM"@) == "C4FM"@,
        upper_seq("PSK31"@) == "PSK31"@,
        upper_seq("DSTAR"@) == "DSTAR"@,
{
    reveal_strlit("FT4");
    reveal_strlit("FT8");
    reveal_strlit("LSB");
    reveal_strlit("USB");
    reveal_strlit("SSB");
    reveal_strlit("CW");
    reveal_strlit("FM");
    reveal_strlit("RTTY");
    reveal_strlit("C4FM");
    reveal_strlit("PSK31");
    reveal_strlit("DSTAR");
    assert(upper_seq("FT4"@) =~= "FT4"@);
    assert(upper_seq("FT8"@) =~= "FT8"@);
    assert(upper_seq("LSB"@) =~= "LSB"@);
    assert(upper_seq("USB"@) =~= "USB"@);
    assert(upper_seq("SSB"@) =~= "SSB"@);
    assert(upper_seq("CW"@) =~= "CW"@);
    assert(upper_seq("FM"@) =~= "FM"@);
    assert(upper_seq("RTTY"@) =~= "RTTY"@);
    assert(upper_seq("C4FM"@) =~= "C4FM"@);
    assert(upper_seq("PSK31"@) =~= "PSK31"@);
    assert(upper_seq("DSTAR"@) =~= "DSTAR"@);
}

/// Mode parsing is case-insensitive: a string and its upper-cased form
/// parse to the same result.
pub proof fn lemma_mode_parse_case_insensitive(s: Seq<char>)
    ensures
        spec_mode_from(upper_seq(s)) == spec_mode_from(s),
{
    assert(upper_seq(upper_seq(s)) =~= upper_seq(s)) by {
        assert(forall|k: int|
            0 <= k < s.len() ==> #[trigger] to_upper(to_upper(s[k])) == to_upper(s[k]));
    }
}

impl Mode {
    /// Parses mode text, accepting the eleven named modes in any letter
    /// case and rejecting everything else with the offending text.
    pub fn from_str(value: &str) -> (r: Result<Mode, ParseError>)
        ensures
            match r {
                Ok(m) => spec_mode_from(value@) == Some(m),
                Err(e) => spec_mode_from(value@) is None && e@ == (ParseErrorView::InvalidMode {
                    text: value@,
                }),
            },
    {
        proof {
            lemma_names_upper();
        }
        if crate::chars::eq_ignore_case(value, "FT4") {
            Ok(Mode::Ft4)
        } else if crate::chars::eq_ignore_case(value, "FT8") {
            Ok(Mode::Ft8)
        } else if crate::chars::eq_ignore_case(value, "LSB") {
            Ok(Mode::Lsb)
        } else if crate::chars::eq_ignore_case(value, "USB") {
            Ok(Mode::Usb)
        } else if crate::chars::eq_ignore_case(value, "SSB") {
            Ok(Mode::Ssb)
        } else if crate::chars::eq_ignore_case(value, "CW") {
            Ok(Mode::Cw)
        } else if crate::chars::eq_ignore_case(value, "FM") {
            Ok(Mode::Fm)
        } else if crate::chars::eq_ignore_case(value, "RTTY") {
            Ok(Mode::Rtty)
        } else if crate::chars::eq_ignore_case(value, "C4FM") {
            Ok(Mode::C4fm)
        } else if crate::chars::eq_ignore_case(value, "PSK31") {
            Ok(Mode::Psk31)
        } else if crate::chars::eq_ignore_case(value, "DSTAR") {
            Ok(Mode::Dstar)
        } else {
            Err(ParseError::InvalidMode { text: value.to_owned() })
        }
    }

    /// Parses the mode field of a feed record: an empty field is the
    /// `Unknown` fallback, anything else must name a mode.
    pub fn from_feed_field(value: &str) -> (r: Result<Mode, ParseError>)
        ensures
            match r {
                Ok(m) => (value@.len() == 0 && m == Mode::Unknown) || (value@.len() > 0
                    && spec_mode_from(value@) == Some(m)),
                Err(e) => value@.len() > 0 && spec_mode_from(value@) is None && e@ == (
                ParseErrorView::InvalidMode { text: value@ }),
            },
    {
        if value.unicode_len() == 0 {
            Ok(Mode::Unknown)
        } else {
            Mode::from_str(value)
        }
    }

    /// Renders the mode's canonical display name.
    pub fn render(&self) -> (r: String)
        ensures
            r@ == spec_mode_name(*self),
    {
        match self {
            Mode::Ft4 => String::from_str("FT4"),
            Mode::Ft8 => String::from_str("FT8"),
            Mode::Lsb => String::from_str("LSB"),
            Mode::Usb => String::from_str("USB"),
            Mode::Ssb => String::from_str("SSB"),
            Mode::Cw => String::from_str("CW"),
            Mode::Fm => String::from_str("FM"),
            Mode::Rtty => String::from_str("RTTY"),
            Mode::C4fm => String::from_str("C4FM"),
            Mode::Psk31 => String::from_str("PSK31"),
            Mode::Dstar => String::from_str("DSTAR"),
            Mode::Unknown => String::from_str("unknown"),
        }
    }
}

} // verus!
