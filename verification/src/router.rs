//! The pure decision logic of the two chat commands: argument splitting,
//! command planning, reply formatting, and spot-age rendering.

use vstd::prelude::*;
use crate::band::{spec_band_from, spec_band_name, Band};
use crate::chars::is_space;
use crate::feed::{spec_matches, Activation};
use crate::freq::spec_render_freq;
use crate::mode::{spec_mode_from, spec_mode_name, Mode};
use crate::numfmt::{spec_digits, u64_to_string};
use crate::timestamp::{spec_epoch, spec_render_ts, Timestamp};

verus! {

/// The words of `s`: maximal runs of non-whitespace characters, in order.
pub open spec fn split_ws(s: Seq<char>) -> Seq<Seq<char>>
    decreases s.len(),
{
    if s.len() == 0 {
        Seq::empty()
    } else {
        let pre = split_ws(s.drop_last());
        let c = s.last();
        if is_space(c) {
            pre
        } else if s.len() >= 2 && !is_space(s[s.len() - 2]) {
            pre.update(pre.len() - 1, pre.last().push(c))
        } else {
            pre.push(seq![c])
        }
    }
}

/// The views of a sequence of words.
pub open spec fn word_views(v: Seq<String>) -> Seq<Seq<char>> {
    v.map_values(|w: String| w@)
}

/// Splits `s` into its whitespace-separated words.
pub fn split_args(s: &str) -> (r: Vec<String>)
    ensures
        word_views(r@) == split_ws(s@),
{
    let len = s.unicode_len();
    let mut out: Vec<String> = Vec::new();
    let mut cur = String::new();
    let mut i: usize = 0;
    proof {
        assert(word_views(out@) + Seq::<Seq<char>>::empty() =~= split_ws(s@.take(0)));
    }
    while i < len
        invariant
            len == s@.len(),
            0 <= i <= len,
            word_views(out@) + (if cur@.len() > 0 {
                seq![cur@]
            } else {
                Seq::<Seq<char>>::empty()
            }) == split_ws(s@.take(i as int)),
            cur@.len() > 0 <==> (i > 0 && !is_space(s@[i - 1])),
        decreases len - i,
    {
        let ghost pre = split_ws(s@.take(i as int));
        proof {
            assert(s@.take(i + 1).drop_last() =~= s@.take(i as int));
            assert(s@.take(i + 1).last() == s@[i as int]);
            if i > 0 {
                assert(s@.take(i + 1)[i - 1] == s@[i - 1]);
            }
        }
        let c = s.get_char(i);
        if c == ' ' || c == '\t' || c == '\n' || c == '\r' {
            if cur.unicode_len() > 0 {
                out.push(cur);
                cur = String::new();
            }
            proof {
                assert(word_views(out@) + Seq::<Seq<char>>::empty() =~= split_ws(
                    s@.take(i + 1),
                ));
            }
        } else {
            let piece = s.substring_char(i, i + 1);
            proof {
                assert(piece@ =~= seq![s@[i as int]]);
            }
            if cur.unicode_len() > 0 {
                let ghost oldcur = cur@;
                cur.append(piece);
                proof {
                    assert(cur@ =~= oldcur.push(s@[i as int]));
                    assert(pre.len() > 0);
                    assert(pre =~= word_views(out@) + seq![oldcur]);
                    assert(split_ws(s@.take(i + 1)) =~= pre.update(
                        pre.len() - 1,
                        pre.last().push(s@[i as int]),
                    ));
                    assert(word_views(out@) + seq![cur@] =~= pre.update(
                        pre.len() - 1,
                        pre.last().push(s@[i as int]),
                    ));
                }
            } else {
                cur.append(piece);
                proof {
                    assert(cur@ =~= seq![s@[i as int]]);
                    assert(word_views(out@) + seq![cur@] =~= pre.push(seq![s@[i as int]]));
                }
            }
        }
        i = i + 1;
    }
    proof {
        assert(s@.take(len as int) =~= s@);
    }
    if cur.unicode_len() > 0 {
        let ghost oldout = out@;
        out.push(cur);
        proof {
            assert(word_views(out@) =~= word_views(oldout) + seq![out@.last()@]);
        }
    } else {
        proof {
            assert(word_views(out@) =~= word_views(out@) + Seq::<Seq<char>>::empty());
        }
    }
    out
}

/// What a "pota" command invocation should do: run a lookup, or send one
/// of the three fixed error replies.
#[derive(Clone, Copy, PartialEq, Eq, Structural, Debug)]
pub enum PotaPlan {
    Usage,
    InvalidBand,
    InvalidMode,
    Lookup { band: Band, mode: Mode },
}

/// The plan the argument words call for: one word is a band with the
/// default SSB mode, two words are a band and a mode (the mode checked
/// first), anything else is a usage error.
pub open spec fn spec_plan(words: Seq<Seq<char>>) -> PotaPlan {
    if words.len() == 1 {
        match spec_band_from(words[0]) {
            Some(b) => PotaPlan::Lookup { band: b, mode: Mode::Ssb },
            None => PotaPlan::InvalidBand,
        }
    } else if words.len() == 2 {
        match spec_mode_from(words[1]) {
            None => PotaPlan::InvalidMode,
            Some(m) => match spec_band_from(words[0]) {
                Some(b) => PotaPlan::Lookup { band: b, mode: m },
                None => PotaPlan::InvalidBand,
            },
        }
    } else {
        PotaPlan::Usage
    }
}

/// Decides what a "pota" invocation with argument text `arg` should do.
pub fn plan_pota(arg: &str) -> (r: PotaPlan)
    ensures
        r == spec_plan(split_ws(arg@)),
{
    let words = split_args(arg);
    proof {
        if words@.len() > 0 {
            assert(word_views(words@)[0] == words@[0]@);
        }
        if words@.len() > 1 {
            assert(word_views(words@)[1] == words@[1]@);
        }
    }
    if words.len() == 1 {
        match Band::from_str(words[0].as_str()) {
            Ok(b) => PotaPlan::Lookup { band: b, mode: Mode::Ssb },
            Err(_) => PotaPlan::InvalidBand,
        }
    } else if words.len() == 2 {
        match Mode::from_str(words[1].as_str()) {
            Err(_) => PotaPlan::InvalidMode,
            Ok(m) => match Band::from_str(words[0].as_str()) {
                Ok(b) => PotaPlan::Lookup { band: b, mode: m },
                Err(_) => PotaPlan::InvalidBand,
            },
        }
    } else {
        PotaPlan::Usage
    }
}

impl PotaPlan {
    /// The fixed reply text of an error plan.
    pub fn error_reply(&self) -> (r: String)
        requires
            !(self matches PotaPlan::Lookup { .. }),
        ensures
            *self == PotaPlan::Usage ==> r@ == "invalid pota command. Usage: pota <band> [mode]"@,
            *self == PotaPlan::InvalidBand ==> r@ == "invalid_band"@,
            *self == PotaPlan::InvalidMode ==> r@ == "invalid mode"@,
    {
        match self {
            PotaPlan::Usage => String::from_str("invalid pota command. Usage: pota <band> [mode]"),
            PotaPlan::InvalidBand => String::from_str("invalid_band"),
            PotaPlan::InvalidMode => String::from_str("invalid mode"),
            PotaPlan::Lookup { .. } => String::from_str(""),
        }
    }
}

/// The absolute distance in seconds between the spot time and now.
pub open spec fn spec_age_abs(spot_epoch: int, now_epoch: int) -> int {
    if spot_epoch >= now_epoch {
        spot_epoch - now_epoch
    } else {
        now_epoch - spot_epoch
    }
}

/// The display form of an age: over a minute it is minutes and remainder
/// seconds as `<m>m<s>s`, otherwise the plain second count.
pub open spec fn spec_render_age(a: int) -> Seq<char> {
    if a > 60 {
        spec_digits((a / 60) as nat) + seq!['m'] + spec_digits((a % 60) as nat) + seq!['s']
    } else {
        spec_digits(a as nat)
    }
}

/// The epoch seconds of a timestamp, as a spec shorthand.
pub open spec fn spec_ts_epoch(t: Timestamp) -> int {
    spec_epoch(
        t.year as int,
        t.month as int,
        t.day as int,
        t.hour as int,
        t.minute as int,
        t.second as int,
    )
}

/// Renders how old a spot is relative to `now_epoch` seconds.
pub fn render_age(spot: &Timestamp, now_epoch: i64) -> (r: String)
    requires
        spot.wf(),
    ensures
        r@ == spec_render_age(spec_age_abs(spec_ts_epoch(*spot), now_epoch as int)),
{
    let se = spot.epoch_seconds();
    let diff: i128 = (se as i128) - (now_epoch as i128);
    let a: u64 = if diff < 0 {
        (-diff) as u64
    } else {
        diff as u64
    };
    proof {
        assert(a as int == spec_age_abs(spec_ts_epoch(*spot), now_epoch as int));
    }
    if a > 60 {
        let mut out = u64_to_string(a / 60);
        proof {
            reveal_strlit("m");
            reveal_strlit("s");
            assert("m"@ =~= seq!['m']);
            assert("s"@ =~= seq!['s']);
        }
        out.append("m");
        let secs = u64_to_string(a % 60);
        out.append(secs.as_str());
        out.append("s");
        proof {
            assert(out@ =~= spec_render_age(a as int));
        }
        out
    } else {
        u64_to_string(a)
    }
}

/// The reply line for a found activation: its time, age, frequency, mode,
/// location, program name, and activator callsign.
pub open spec fn spec_activation_message(a: crate::feed::ActivationView, now_epoch: int) -> Seq<
    char,
> {
    "[time:"@ + spec_render_ts(a.spot_time) + ",age:"@ + spec_render_age(
        spec_age_abs(spec_ts_epoch(a.spot_time), now_epoch),
    ) + "] "@ + spec_render_freq(a.frequency.0 as int) + "MHz "@ + spec_mode_name(a.mode) + ", "@
        + a.location_desc + " - "@ + a.name + " ("@ + a.activator + ")"@
}

/// Renders the reply line for a found activation.
pub fn format_activation(a: &Activation, now_epoch: i64) -> (r: String)
    requires
        a.spot_time.wf(),
    ensures
        r@ == spec_activation_message(a@, now_epoch as int),
{
    proof {
        reveal_strlit("[time:");
        reveal_strlit(",age:");
        reveal_strlit("] ");
        reveal_strlit("MHz ");
        reveal_strlit(", ");
        reveal_strlit(" - ");
        reveal_strlit(" (");
        reveal_strlit(")");
    }
    let mut out = String::from_str("[time:");
    let ts = a.spot_time.render();
    out.append(ts.as_str());
    out.append(",age:");
    let age = render_age(&a.spot_time, now_epoch);
    out.append(age.as_str());
    out.append("] ");
    let f = a.frequency.render();
    out.append(f.as_str());
    out.append("MHz ");
    let m = a.mode.render();
    out.append(m.as_str());
    out.append(", ");
    out.append(a.location_desc.as_str());
    out.append(" - ");
    out.append(a.name.as_str());
    out.append(" (");
    out.append(a.activator.as_str());
    out.append(")");
    proof {
        assert(out@ =~= spec_activation_message(a@, now_epoch as int));
    }
    out
}

/// The fixed reply when no activation matches, naming the requested band
/// and mode.
pub open spec fn spec_no_match_message(band: Band, mode: Mode) -> Seq<char> {
    "no activations found on "@ + spec_band_name(band) + " over "@ + spec_mode_name(mode)
}

/// The index of the first activation matching `band` and `mode`, or `-1`.
pub open spec fn first_match(s: Seq<Activation>, band: Band, mode: Mode) -> int
    decreases s.len(),
{
    if s.len() == 0 {
        -1
    } else if spec_matches(s[0]@, band, mode) {
        0
    } else {
        let r = first_match(s.skip(1), band, mode);
        if r == -1 {
            -1
        } else {
            1 + r
        }
    }
}

/// A scan that first matches at `i` pins `first_match`.
proof fn lemma_first_match_at(s: Seq<Activation>, band: Band, mode: Mode, i: int)
    requires
        0 <= i < s.len(),
        forall|j: int| 0 <= j < i ==> !spec_matches((#[trigger] s[j])@, band, mode),
        spec_matches(s[i]@, band, mode),
    ensures
        first_match(s, band, mode) == i,
    decreases s.len(),
{
    if i > 0 {
        lemma_first_match_at(s.skip(1), band, mode, i - 1);
    }
}

/// A scan that never matches pins `first_match` to `-1`.
proof fn lemma_first_match_none(s: Seq<Activation>, band: Band, mode: Mode)
    requires
        forall|j: int| 0 <= j < s.len() ==> !spec_matches((#[trigger] s[j])@, band, mode),
    ensures
        first_match(s, band, mode) == -1,
    decreases s.len(),
{
    if s.len() > 0 {
        lemma_first_match_none(s.skip(1), band, mode);
    }
}

/// The whole "pota" lookup reply: the first matching activation's line,
/// or the fixed no-match message naming the requested band and mode.
pub open spec fn spec_pota_reply(s: Seq<Activation>, band: Band, mode: Mode, now_epoch: int) -> Seq<
    char,
> {
    let fm = first_match(s, band, mode);
    if fm == -1 {
        spec_no_match_message(band, mode)
    } else {
        spec_activation_message(s[fm]@, now_epoch)
    }
}

/// Builds the "pota" lookup reply from the normalized activations at the
/// given current time.
pub fn pota_reply(activations: &Vec<Activation>, band: &Band, mode: &Mode, now_epoch: i64) -> (r:
    String)
    requires
        forall|i: int| 0 <= i < activations@.len() ==> (#[trigger] activations@[i]).spot_time.wf(),
    ensures
        r@ == spec_pota_reply(activations@, *band, *mode, now_epoch as int),
{
    match crate::feed::most_recent_activation(activations, band, mode) {
        Some(a) => {
            proof {
                let i = choose|i: int|
                    {
                        &&& 0 <= i < activations@.len()
                        &&& #[trigger] spec_matches(activations@[i]@, *band, *mode)
                        &&& *a == activations@[i]
                        &&& forall|j: int|
                            0 <= j < i ==> !#[trigger] spec_matches(
                                activations@[j]@,
                                *band,
                                *mode,
                            )
                    };
                lemma_first_match_at(activations@, *band, *mode, i);
            }
            format_activation(a, now_epoch)
        },
        None => {
            proof {
                lemma_first_match_none(activations@, *band, *mode);
                reveal_strlit("no activations found on ");
                reveal_strlit(" over ");
            }
            let mut out = String::from_str("no activations found on ");
            let b = band.render();
            out.append(b.as_str());
            out.append(" over ");
            let m = mode.render();
            out.append(m.as_str());
            proof {
                assert(out@ =~= spec_no_match_message(*band, *mode));
            }
            out
        },
    }
}

/// Relies on chrono's `Utc::now`: the current time as whole seconds since
/// the Unix epoch. Nothing can be promised of the clock's reading.
#[verifier::external_body]
fn current_epoch_seconds() -> i64 {
    chrono::Utc::now().timestamp()
}

/// Builds the "pota" lookup reply at the current time: the reply is the
/// one `spec_pota_reply` defines for some reading of the clock.
pub fn pota_reply_now(activations: &Vec<Activation>, band: &Band, mode: &Mode) -> (r: String)
    requires
        forall|i: int| 0 <= i < activations@.len() ==> (#[trigger] activations@[i]).spot_time.wf(),
    ensures
        exists|now_epoch: int| r@ == spec_pota_reply(activations@, *band, *mode, now_epoch),
{
    let now = current_epoch_seconds();
    let r = pota_reply(activations, band, mode, now);
    proof {
        assert(r@ == spec_pota_reply(activations@, *band, *mode, now as int));
    }
    r
}

/// Prefixes a reply with the addressed user's display name, when the
/// command event carries one.
pub fn with_reply(display_name: Option<&String>, message: &str) -> (r: String)
    ensures
        r@ == match display_name {
            Some(n) => n@ + ": "@ + message@,
            None => message@,
        },
{
    match display_name {
        Some(n) => {
            proof {
                reveal_strlit(": ");
            }
            let mut out = n.clone();
            out.append(": ");
            out.append(message);
            out
        },
        None => message.to_owned(),
    }
}

} // verus!
