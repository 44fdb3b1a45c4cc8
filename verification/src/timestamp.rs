//! UTC timestamps: parsing the fixed `YYYY-MM-DDTHH:MM:SS` pattern,
//! calendar validation, seconds since the Unix epoch, and display.

use vstd::prelude::*;
use crate::chars::{digit_val, is_digit};
use crate::errors::{ParseError, ParseErrorView};
use crate::numfmt::{append_pad2, append_pad4, spec_pad2, spec_pad4};

verus! {

/// Whether `y` is a leap year in the Gregorian calendar.
pub open spec fn is_leap(y: int) -> bool {
    y % 4 == 0 && (y % 100 != 0 || y % 400 == 0)
}

/// How many days the month `m` of year `y` has.
pub open spec fn days_in_month(y: int, m: int) -> int {
    if m == 2 {
        if is_leap(y) {
            29
        } else {
            28
        }
    } else if m == 4 || m == 6 || m == 9 || m == 11 {
        30
    } else {
        31
    }
}

/// Whether the six fields name a real UTC calendar time with a four-digit
/// year.
pub open spec fn valid_date(y: int, m: int, d: int, h: int, mi: int, s: int) -> bool {
    &&& 0 <= y <= 9999
    &&& 1 <= m <= 12
    &&& 1 <= d <= days_in_month(y, m)
    &&& 0 <= h <= 23
    &&& 0 <= mi <= 59
    &&& 0 <= s <= 59
}

/// Seconds since 1970-01-01T00:00:00 UTC of the given calendar time,
/// by era-based Gregorian day counting (negative before the epoch).
pub open spec fn spec_epoch(y: int, m: int, d: int, h: int, mi: int, s: int) -> int {
    let yy = if m <= 2 {
        y + 399
    } else {
        y + 400
    };
    let era = yy / 400;
    let yoe = yy % 400;
    let mp = if m <= 2 {
        m + 9
    } else {
        m - 3
    };
    let doy = (153 * mp + 2) / 5 + d - 1;
    let doe = yoe * 365 + yoe / 4 - yoe / 100 + doy;
    (era * 146097 + doe - 865565) * 86400 + h * 3600 + mi * 60 + s
}

/// Whether `s` has the shape `YYYY-MM-DDTHH:MM:SS`: nineteen characters,
/// digits in the six fields, the fixed separators between them.
pub open spec fn ts_text_wf(s: Seq<char>) -> bool {
    &&& s.len() == 19
    &&& is_digit(s[0]) && is_digit(s[1]) && is_digit(s[2]) && is_digit(s[3])
    &&& s[4] == '-'
    &&& is_digit(s[5]) && is_digit(s[6])
    &&& s[7] == '-'
    &&& is_digit(s[8]) && is_digit(s[9])
    &&& s[10] == 'T'
    &&& is_digit(s[11]) && is_digit(s[12])
    &&& s[13] == ':'
    &&& is_digit(s[14]) && is_digit(s[15])
    &&& s[16] == ':'
    &&& is_digit(s[17]) && is_digit(s[18])
}

/// The year field of well-shaped timestamp text.
pub open spec fn spec_ts_year(s: Seq<char>) -> int {
    digit_val(s[0]) * 1000 + digit_val(s[1]) * 100 + digit_val(s[2]) * 10 + digit_val(s[3])
}

/// The month field of well-shaped timestamp text.
pub open spec fn spec_ts_month(s: Seq<char>) -> int {
    digit_val(s[5]) * 10 + digit_val(s[6])
}

/// The day field of well-shaped timestamp text.
pub open spec fn spec_ts_day(s: Seq<char>) -> int {
    digit_val(s[8]) * 10 + digit_val(s[9])
}

/// The hour field of well-shaped timestamp text.
pub open spec fn spec_ts_hour(s: Seq<char>) -> int {
    digit_val(s[11]) * 10 + digit_val(s[12])
}

/// The minute field of well-shaped timestamp text.
pub open spec fn spec_ts_minute(s: Seq<char>) -> int {
    digit_val(s[14]) * 10 + digit_val(s[15])
}

/// The second field of well-shaped timestamp text.
pub open spec fn spec_ts_second(s: Seq<char>) -> int {
    digit_val(s[17]) * 10 + digit_val(s[18])
}

/// An absolute UTC calendar time.
#[derive(Clone, Copy, PartialEq, Eq, Structural, Debug)]
pub struct Timestamp {
    pub year: u64,
    pub month: u64,
    pub day: u64,
    pub hour: u64,
    pub minute: u64,
    pub second: u64,
}

/// The display form of a timestamp: `YYYY-MM-DD HH:MM:SS UTC`.
pub open spec fn spec_render_ts(t: Timestamp) -> Seq<char> {
    spec_pad4(t.year as int) + seq!['-'] + spec_pad2(t.month as int) + seq!['-'] + spec_pad2(
        t.day as int,
    ) + seq![' '] + spec_pad2(t.hour as int) + seq![':'] + spec_pad2(t.minute as int) + seq![':']
        + spec_pad2(t.second as int) + " UTC"@
}

impl Timestamp {
    /// Whether the fields name a real UTC calendar time.
    pub open spec fn wf(self) -> bool {
        valid_date(
            self.year as int,
            self.month as int,
            self.day as int,
            self.hour as int,
            self.minute as int,
            self.second as int,
        )
    }

    /// Seconds since the Unix epoch of this calendar time.
    pub fn epoch_seconds(&self) -> (r: i64)
        requires
            self.wf(),
        ensures
            r == spec_epoch(
                self.year as int,
                self.month as int,
                self.day as int,
                self.hour as int,
                self.minute as int,
                self.second as int,
            ),
    {
        let yy: u64 = if self.month <= 2 {
            self.year + 399
        } else {
            self.year + 400
        };
        let era: u64 = yy / 400;
        let yoe: u64 = yy % 400;
        let mp: u64 = if self.month <= 2 {
            self.month + 9
        } else {
            self.month - 3
        };
        let doy: u64 = (153 * mp + 2) / 5 + self.day - 1;
        let doe: u64 = yoe * 365 + yoe / 4 - yoe / 100 + doy;
        let days: u64 = era * 146097 + doe;
        ((days as i64) - 865565) * 86400 + (self.hour as i64) * 3600 + (self.minute as i64) * 60
            + (self.second as i64)
    }

    /// Parses `YYYY-MM-DDTHH:MM:SS` text as a UTC time, rejecting both
    /// malformed text and field values that name no real calendar time.
    pub fn from_str(text: &str) -> (r: Result<Timestamp, ParseError>)
        ensures
            match r {
                Ok(t) => ts_text_wf(text@) && t.wf() && t.year == spec_ts_year(text@) && t.month
                    == spec_ts_month(text@) && t.day == spec_ts_day(text@) && t.hour
                    == spec_ts_hour(text@) && t.minute == spec_ts_minute(text@) && t.second
                    == spec_ts_second(text@),
                Err(e) => e@ == (ParseErrorView::InvalidTimestamp { text: text@ }) && !(ts_text_wf(
                    text@,
                ) && valid_date(
                    spec_ts_year(text@),
                    spec_ts_month(text@),
                    spec_ts_day(text@),
                    spec_ts_hour(text@),
                    spec_ts_minute(text@),
                    spec_ts_second(text@),
                )),
            },
    {
        if text.unicode_len() != 19 {
            return Err(ParseError::InvalidTimestamp { text: text.to_owned() });
        }
        if !(char_is_digit(text.get_char(0)) && char_is_digit(text.get_char(1)) && char_is_digit(
            text.get_char(2),
        ) && char_is_digit(text.get_char(3)) && text.get_char(4) == '-' && char_is_digit(
            text.get_char(5),
        ) && char_is_digit(text.get_char(6)) && text.get_char(7) == '-' && char_is_digit(
            text.get_char(8),
        ) && char_is_digit(text.get_char(9)) && text.get_char(10) == 'T' && char_is_digit(
            text.get_char(11),
        ) && char_is_digit(text.get_char(12)) && text.get_char(13) == ':' && char_is_digit(
            text.get_char(14),
        ) && char_is_digit(text.get_char(15)) && text.get_char(16) == ':' && char_is_digit(
            text.get_char(17),
        ) && char_is_digit(text.get_char(18))) {
            return Err(ParseError::InvalidTimestamp { text: text.to_owned() });
        }
        let year: u64 = crate::freq::digit_of(text.get_char(0)) * 1000 + crate::freq::digit_of(
            text.get_char(1),
        ) * 100 + crate::freq::digit_of(text.get_char(2)) * 10 + crate::freq::digit_of(
            text.get_char(3),
        );
        let month: u64 = crate::freq::digit_of(text.get_char(5)) * 10 + crate::freq::digit_of(
            text.get_char(6),
        );
        let day: u64 = crate::freq::digit_of(text.get_char(8)) * 10 + crate::freq::digit_of(
            text.get_char(9),
        );
        let hour: u64 = crate::freq::digit_of(text.get_char(11)) * 10 + crate::freq::digit_of(
            text.get_char(12),
        );
        let minute: u64 = crate::freq::digit_of(text.get_char(14)) * 10 + crate::freq::digit_of(
            text.get_char(15),
        );
        let second: u64 = crate::freq::digit_of(text.get_char(17)) * 10 + crate::freq::digit_of(
            text.get_char(18),
        );
        let t = Timestamp { year, month, day, hour, minute, second };
        if month < 1 || month > 12 {
            return Err(ParseError::InvalidTimestamp { text: text.to_owned() });
        }
        let dim: u64 = if month == 2 {
            if year % 4 == 0 && (year % 100 != 0 || year % 400 == 0) {
                29
            } else {
                28
            }
        } else if month == 4 || month == 6 || month == 9 || month == 11 {
            30
        } else {
            31
        };
        if day < 1 || day > dim || hour > 23 || minute > 59 || second > 59 {
            return Err(ParseError::InvalidTimestamp { text: text.to_owned() });
        }
        Ok(t)
    }

    /// Renders the timestamp as `YYYY-MM-DD HH:MM:SS UTC`.
    pub fn render(&self) -> (r: String)
        requires
            self.wf(),
        ensures
            r@ == spec_render_ts(*self),
    {
        let mut out = String::new();
        append_pad4(&mut out, self.year);
        proof {
            reveal_strlit("-");
            reveal_strlit(" ");
            reveal_strlit(":");
            reveal_strlit(" UTC");
            assert("-"@ =~= seq!['-']);
            assert(" "@ =~= seq![' ']);
            assert(":"@ =~= seq![':']);
        }
        out.append("-");
        append_pad2(&mut out, self.month);
        out.append("-");
        append_pad2(&mut out, self.day);
        out.append(" ");
        append_pad2(&mut out, self.hour);
        out.append(":");
        append_pad2(&mut out, self.minute);
        out.append(":");
        append_pad2(&mut out, self.second);
        out.append(" UTC");
        proof {
            assert(out@ =~= spec_render_ts(*self));
        }
        out
    }
}

/// Whether `c` is a decimal digit.
fn char_is_digit(c: char) -> (r: bool)
    ensures
        r == is_digit(c),
{
    '0' <= c && c <= '9'
}

} // verus!
