//! Radio frequencies as exact integer hertz counts: parsing from
//! decimal-kilohertz text, range membership, and display.

use vstd::prelude::*;
use crate::chars::{digit_val, is_digit};
use crate::errors::{ParseError, ParseErrorView};
use crate::numfmt::{append_pad3, spec_digits, spec_pad3, u64_to_string};

verus! {

/// The index of the first `'.'` in `s`, or `s.len()` if there is none.
pub open spec fn spec_dot_pos(s: Seq<char>) -> int
    decreases s.len(),
{
    if s.len() == 0 {
        0
    } else if s[0] == '.' {
        0
    } else {
        1 + spec_dot_pos(s.skip(1))
    }
}

/// Whether `s` is decimal-number text: non-empty, made of digits and at
/// most one `'.'`, with at least one digit.
pub open spec fn is_number_text(s: Seq<char>) -> bool {
    &&& s.len() > 0
    &&& (forall|i: int| 0 <= i < s.len() ==> is_digit(s[i]) || s[i] == '.')
    &&& (forall|i: int, j: int|
        0 <= i < s.len() && 0 <= j < s.len() && s[i] == '.' && s[j] == '.' ==> i == j)
    &&& (exists|i: int| 0 <= i < s.len() && is_digit(s[i]))
}

/// The value of digit text read as a decimal number.
pub open spec fn spec_digits_val(s: Seq<char>) -> int
    decreases s.len(),
{
    if s.len() == 0 {
        0
    } else {
        spec_digits_val(s.drop_last()) * 10 + digit_val(s.last())
    }
}

/// The value of up to three leading fractional digits, in thousandths.
pub open spec fn spec_frac3(f: Seq<char>) -> int {
    (if f.len() > 0 {
        digit_val(f[0]) * 100
    } else {
        0int
    }) + (if f.len() > 1 {
        digit_val(f[1]) * 10
    } else {
        0int
    }) + (if f.len() > 2 {
        digit_val(f[2])
    } else {
        0int
    })
}

/// The hertz count that decimal-kilohertz text denotes: the kilohertz value
/// times one thousand, truncated past the third fractional digit.
pub open spec fn spec_khz_text_hz(s: Seq<char>) -> int {
    let dp = spec_dot_pos(s);
    let frac = if dp < s.len() {
        s.skip(dp + 1)
    } else {
        Seq::<char>::empty()
    };
    spec_digits_val(s.take(dp)) * 1000 + spec_frac3(frac)
}

/// An exact radio frequency as a non-negative count of hertz.
#[derive(Clone, Copy, PartialEq, Eq, Structural, Debug)]
pub struct Frequency(pub u64);

/// An inclusive frequency range.
#[derive(Clone, Copy, PartialEq, Eq, Structural, Debug)]
pub struct FrequencyRange {
    pub low: Frequency,
    pub high: Frequency,
}

impl FrequencyRange {
    /// Whether `hz` lies inside the range, both ends included.
    pub open spec fn spec_contains(self, hz: int) -> bool {
        self.low.0 <= hz && hz <= self.high.0
    }
}

/// The display form of a frequency: megahertz, a dot, the kilohertz rest
/// zero-padded to three digits, and `.5` exactly when the sub-kilohertz
/// remainder is five hundred hertz.
pub open spec fn spec_render_freq(hz: int) -> Seq<char> {
    spec_digits((hz / 1000000) as nat) + seq!['.'] + spec_pad3((hz % 1000000) / 1000) + if hz
        % 1000 == 500 {
        seq!['.', '5']
    } else {
        Seq::<char>::empty()
    }
}

/// The numeric value of a decimal digit character.
pub fn digit_of(c: char) -> (r: u64)
    requires
        is_digit(c),
    ensures
        r == digit_val(c),
        r < 10,
{
    ((c as u32) - 48) as u64
}

/// A digit never makes digit text smaller: every prefix of digit text
/// denotes at most the whole text's value.
proof fn lemma_digits_val_prefix(s: Seq<char>, j: int)
    requires
        0 <= j <= s.len(),
        forall|k: int| 0 <= k < s.len() ==> is_digit(s[k]),
    ensures
        spec_digits_val(s.take(j)) <= spec_digits_val(s),
        spec_digits_val(s) >= 0,
    decreases s.len(),
{
    if s.len() == 0 {
        assert(s.take(j) =~= s);
    } else if j == s.len() {
        assert(s.take(j) =~= s);
        lemma_digits_val_prefix(s.drop_last(), s.len() - 1);
    } else {
        lemma_digits_val_prefix(s.drop_last(), j);
        assert(s.drop_last().take(j) =~= s.take(j));
    }
}

/// Locates the first dot: a prefix without dots followed by a dot or the
/// end pins `spec_dot_pos`.
proof fn lemma_dot_pos(s: Seq<char>, i: int)
    requires
        0 <= i <= s.len(),
        forall|j: int| 0 <= j < i ==> s[j] != '.',
        i == s.len() || s[i] == '.',
    ensures
        spec_dot_pos(s) == i,
    decreases s.len(),
{
    if s.len() != 0 && s[0] != '.' {
        lemma_dot_pos(s.skip(1), i - 1);
    }
}

impl Frequency {
    /// The frequency's whole count of megahertz, truncating.
    pub fn mhz(&self) -> (r: u64)
        ensures
            r == self.0 / 1000000,
    {
        self.0 / 1000000
    }

    /// Whether the frequency lies inside `range`, both ends included.
    pub fn in_range(&self, range: &FrequencyRange) -> (r: bool)
        ensures
            r == range.spec_contains(self.0 as int),
    {
        range.low.0 <= self.0 && self.0 <= range.high.0
    }

    /// Parses decimal-kilohertz text into an exact hertz count, truncating
    /// past the third fractional digit. Fails exactly when the text is not
    /// a plain decimal number or the hertz count does not fit in 64 bits.
    pub fn from_str(text: &str) -> (r: Result<Frequency, ParseError>)
        ensures
            match r {
                Ok(f) => is_number_text(text@) && 0 <= spec_khz_text_hz(text@) <= u64::MAX
                    && f.0 == spec_khz_text_hz(text@),
                Err(e) => e@ == (ParseErrorView::InvalidFrequency { text: text@ }) && !(
                is_number_text(text@) && spec_khz_text_hz(text@) <= u64::MAX),
            },
    {
        let ghost s = text@;
        let len = text.unicode_len();
        if len == 0 {
            return Err(ParseError::InvalidFrequency { text: text.to_owned() });
        }
        // Validate the shape and find the dot.
        let mut dot_idx: Option<usize> = None;
        let mut i: usize = 0;
        while i < len
            invariant
                len == s.len(),
                s == text@,
                0 <= i <= len,
                forall|j: int| 0 <= j < i ==> is_digit(s[j]) || s[j] == '.',
                match dot_idx {
                    Some(d) => d < i && s[d as int] == '.' && (forall|j: int|
                        0 <= j < i && j != d ==> s[j] != '.'),
                    None => forall|j: int| 0 <= j < i ==> s[j] != '.',
                },
            decreases len - i,
        {
            let c = text.get_char(i);
            if c == '.' {
                if dot_idx.is_some() {
                    proof {
                        let d = dot_idx->0 as int;
                        assert(s[d] == '.' && s[i as int] == '.' && d != i as int);
                    }
                    return Err(ParseError::InvalidFrequency { text: text.to_owned() });
                }
                dot_idx = Some(i);
            } else if !('0' <= c && c <= '9') {
                proof {
                    assert(!is_digit(s[i as int]) && s[i as int] != '.');
                }
                return Err(ParseError::InvalidFrequency { text: text.to_owned() });
            }
            i = i + 1;
        }
        let dp: usize = match dot_idx {
            Some(d) => d,
            None => len,
        };
        proof {
            lemma_dot_pos(s, dp as int);
        }
        if dp == 0 && len == 1 {
            // A lone dot holds no digit.
            proof {
                assert(forall|k: int| 0 <= k < s.len() ==> !is_digit(s[k]));
            }
            return Err(ParseError::InvalidFrequency { text: text.to_owned() });
        }
        proof {
            if dp > 0 {
                assert(is_digit(s[0]));
            } else {
                assert(is_digit(s[1]));
            }
            assert(is_number_text(s));
        }
        // The whole-kilohertz digits before the dot.
        let ghost ip = s.take(dp as int);
        let mut acc: u64 = 0;
        let mut j: usize = 0;
        while j < dp
            invariant
                len == s.len(),
                s == text@,
                dp <= len,
                spec_dot_pos(s) == dp,
                is_number_text(s),
                ip == s.take(dp as int),
                forall|k: int| 0 <= k < s.len() && k != dp ==> s[k] != '.',
                forall|k: int| 0 <= k < ip.len() ==> is_digit(ip[k]),
                0 <= j <= dp,
                acc == spec_digits_val(s.take(j as int)),
            decreases dp - j,
        {
            let c = text.get_char(j);
            proof {
                assert(ip[j as int] == s[j as int]);
            }
            let d = digit_of(c);
            if acc > (u64::MAX - d) / 10 {
                proof {
                    let next = s.take(j + 1);
                    assert(next.drop_last() =~= s.take(j as int));
                    assert(next.last() == s[j as int]);
                    assert(spec_digits_val(next) == acc * 10 + d);
                    assert(acc * 10 + d > u64::MAX) by (nonlinear_arith)
                        requires
                            acc > (u64::MAX - d) / 10,
                            d < 10,
                    ;
                    assert(s.take(dp as int).take(j + 1) =~= next);
                    lemma_digits_val_prefix(s.take(dp as int), j + 1);
                    lemma_frac_nonneg(s, dp as int);
                    assert(spec_khz_text_hz(s) > u64::MAX) by (nonlinear_arith)
                        requires
                            spec_digits_val(s.take(spec_dot_pos(s))) > u64::MAX,
                            spec_khz_text_hz(s) >= spec_digits_val(s.take(spec_dot_pos(s)))
                                * 1000,
                    ;
                }
                return Err(ParseError::InvalidFrequency { text: text.to_owned() });
            }
            proof {
                let next = s.take(j + 1);
                assert(next.drop_last() =~= s.take(j as int));
                assert(next.last() == s[j as int]);
                assert(acc * 10 + d <= u64::MAX) by (nonlinear_arith)
                    requires
                        acc <= (u64::MAX - d) / 10,
                        d < 10,
                ;
            }
            acc = acc * 10 + d;
            j = j + 1;
        }
        proof {
            assert(s.take(dp as int).take(dp as int) =~= s.take(dp as int));
        }
        // Up to three fractional digits, in thousandths.
        let mut frac: u64 = 0;
        proof {
            if (dp as int) < s.len() {
                assert(s.skip(dp + 1).len() == s.len() - dp - 1);
                assert(forall|k: int|
                    0 <= k < s.skip(dp + 1).len() ==> #[trigger] s.skip(dp + 1)[k] == s[dp + 1
                        + k]);
            }
        }
        if dp < len {
            if dp + 1 < len {
                frac = frac + 100 * digit_of(text.get_char(dp + 1));
                if dp + 2 < len {
                    frac = frac + 10 * digit_of(text.get_char(dp + 2));
                    if dp + 3 < len {
                        frac = frac + digit_of(text.get_char(dp + 3));
                    }
                }
            }
        }
        proof {
            if (dp as int) < s.len() {
                assert(frac == spec_frac3(s.skip(dp + 1)));
            } else {
                assert(frac == spec_frac3(Seq::<char>::empty()));
            }
            assert(frac < 1000);
        }
        if acc > (u64::MAX - frac) / 1000 {
            proof {
                assert(acc * 1000 + frac > u64::MAX) by (nonlinear_arith)
                    requires
                        acc > (u64::MAX - frac) / 1000,
                        frac < 1000,
                ;
            }
            return Err(ParseError::InvalidFrequency { text: text.to_owned() });
        }
        proof {
            assert(acc * 1000 + frac <= u64::MAX) by (nonlinear_arith)
                requires
                    acc <= (u64::MAX - frac) / 1000,
                    frac < 1000,
            ;
        }
        Ok(Frequency(acc * 1000 + frac))
    }

    /// Renders the frequency as megahertz text, matching `spec_render_freq`.
    pub fn render(&self) -> (r: String)
        ensures
            r@ == spec_render_freq(self.0 as int),
    {
        let mut out = u64_to_string(self.0 / 1000000);
        proof {
            reveal_strlit(".");
            assert("."@ =~= seq!['.']);
        }
        out.append(".");
        append_pad3(&mut out, (self.0 % 1000000) / 1000);
        if self.0 % 1000 == 500 {
            proof {
                reveal_strlit(".5");
                assert(".5"@ =~= seq!['.', '5']);
            }
            out.append(".5");
        }
        proof {
            assert(out@ =~= spec_render_freq(self.0 as int));
        }
        out
    }
}

/// The fractional part of number text is non-negative and below one
/// thousand, so the hertz count is at least the whole part in thousands.
proof fn lemma_frac_nonneg(s: Seq<char>, dp: int)
    requires
        dp == spec_dot_pos(s),
        0 <= dp <= s.len(),
        forall|j: int| 0 <= j < s.len() ==> is_digit(s[j]) || s[j] == '.',
        forall|j: int| 0 <= j < s.len() && j != dp ==> s[j] != '.',
    ensures
        spec_khz_text_hz(s) >= spec_digits_val(s.take(dp)) * 1000,
        spec_khz_text_hz(s) <= spec_digits_val(s.take(dp)) * 1000 + 999,
{
    if dp < s.len() {
        let f = s.skip(dp + 1);
        assert(forall|k: int| 0 <= k < f.len() ==> f[k] == s[dp + 1 + k]);
        assert(forall|k: int| 0 <= k < f.len() ==> is_digit(f[k]));
        assert(spec_frac3(f) >= 0);
        assert(spec_frac3(f) <= 999);
    }
}

} // verus!
