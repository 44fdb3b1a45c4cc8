//! Character classification, ASCII case folding, lexicographic order on
//! character sequences, and executable string comparisons proved against
//! those specifications.

use vstd::prelude::*;

verus! {

/// Whether `c` is a decimal digit.
pub open spec fn is_digit(c: char) -> bool {
    '0' <= c && c <= '9'
}

/// The numeric value of a decimal digit character.
pub open spec fn digit_val(c: char) -> int {
    c as int - '0' as int
}

/// ASCII upper-casing of a single character; other characters are unchanged.
pub open spec fn to_upper(c: char) -> char {
    if 'a' <= c && c <= 'z' {
        ((c as u8) - 32) as char
    } else {
        c
    }
}

/// ASCII lower-casing of a single character; other characters are unchanged.
pub open spec fn to_lower(c: char) -> char {
    if 'A' <= c && c <= 'Z' {
        ((c as u8) + 32) as char
    } else {
        c
    }
}

/// ASCII upper-casing of a character sequence.
pub open spec fn upper_seq(s: Seq<char>) -> Seq<char> {
    s.map_values(|c: char| to_upper(c))
}

/// ASCII lower-casing of a character sequence.
pub open spec fn lower_seq(s: Seq<char>) -> Seq<char> {
    s.map_values(|c: char| to_lower(c))
}

/// Whether `c` is ASCII whitespace (space, tab, line feed, carriage return).
pub open spec fn is_space(c: char) -> bool {
    c == ' ' || c == '\t' || c == '\n' || c == '\r'
}

/// Lexicographic order on character sequences by code point:
/// `a` comes no later than `b`.
pub open spec fn lex_le(a: Seq<char>, b: Seq<char>) -> bool
    decreases a.len(),
{
    if a.len() == 0 {
        true
    } else if b.len() == 0 {
        false
    } else if (a[0] as int) < (b[0] as int) {
        true
    } else if (a[0] as int) > (b[0] as int) {
        false
    } else {
        lex_le(a.skip(1), b.skip(1))
    }
}

/// The lexicographic order is total.
pub proof fn lemma_lex_le_total(a: Seq<char>, b: Seq<char>)
    ensures
        lex_le(a, b) || lex_le(b, a),
    decreases a.len(),
{
    if a.len() != 0 && b.len() != 0 && a[0] == b[0] {
        lemma_lex_le_total(a.skip(1), b.skip(1));
    }
}

/// The lexicographic order is transitive.
pub proof fn lemma_lex_le_trans(a: Seq<char>, b: Seq<char>, c: Seq<char>)
    requires
        lex_le(a, b),
        lex_le(b, c),
    ensures
        lex_le(a, c),
    decreases a.len(),
{
    if a.len() != 0 && b.len() != 0 && c.len() != 0 && a[0] == b[0] && b[0] == c[0] {
        lemma_lex_le_trans(a.skip(1), b.skip(1), c.skip(1));
    }
}

/// Two non-empty sequences are equal exactly when their heads and tails are.
proof fn lemma_seq_eq_head_tail(a: Seq<char>, b: Seq<char>)
    requires
        a.len() > 0,
        b.len() > 0,
    ensures
        (a == b) <==> (a[0] == b[0] && a.skip(1) == b.skip(1)),
{
    assert(a.skip(1).len() == a.len() - 1);
    assert(b.skip(1).len() == b.len() - 1);
    if a[0] == b[0] && a.skip(1) == b.skip(1) {
        assert(a.len() == b.len());
        assert forall|k: int| 0 <= k < a.len() implies a[k] == b[k] by {
            if k > 0 {
                assert(a.skip(1)[k - 1] == a[k]);
                assert(b.skip(1)[k - 1] == b[k]);
            }
        }
        assert(a =~= b);
    }
}

/// Whether the characters of `s` from `i` on equal those of `t` from `i` on,
/// after ASCII upper-casing both.
fn eq_upper_from(s: &str, t: &str, i: usize, s_len: usize, t_len: usize) -> (r: bool)
    requires
        s_len == s@.len(),
        t_len == t@.len(),
        s_len == t_len,
        i <= s_len,
    ensures
        r == (upper_seq(s@).skip(i as int) == upper_seq(t@).skip(i as int)),
    decreases s_len - i,
{
    if i == s_len {
        proof {
            assert(upper_seq(s@).skip(i as int) =~= upper_seq(t@).skip(i as int));
        }
        true
    } else {
        let cs = s.get_char(i);
        let ct = t.get_char(i);
        let us = to_upper_char(cs);
        let ut = to_upper_char(ct);
        proof {
            let su = upper_seq(s@);
            let tu = upper_seq(t@);
            assert(su.skip(i as int)[0] == su[i as int]);
            assert(tu.skip(i as int)[0] == tu[i as int]);
            assert(su[i as int] == to_upper(s@[i as int]));
            assert(tu[i as int] == to_upper(t@[i as int]));
            assert(su.skip(i as int).skip(1) =~= su.skip(i + 1));
            assert(tu.skip(i as int).skip(1) =~= tu.skip(i + 1));
            lemma_seq_eq_head_tail(su.skip(i as int), tu.skip(i as int));
        }
        if us as u32 == ut as u32 {
            eq_upper_from(s, t, i + 1, s_len, t_len)
        } else {
            false
        }
    }
}

/// ASCII upper-casing of one character.
pub fn to_upper_char(c: char) -> (r: char)
    ensures
        r == to_upper(c),
{
    if 'a' <= c && c <= 'z' {
        ((c as u8) - 32) as char
    } else {
        c
    }
}

/// Whether `s` and `t` hold the same characters up to ASCII case.
pub fn eq_ignore_case(s: &str, t: &str) -> (r: bool)
    ensures
        r == (upper_seq(s@) == upper_seq(t@)),
{
    let s_len = s.unicode_len();
    let t_len = t.unicode_len();
    if s_len != t_len {
        proof {
            assert(upper_seq(s@).len() != upper_seq(t@).len());
        }
        false
    } else {
        let r = eq_upper_from(s, t, 0, s_len, t_len);
        proof {
            assert(upper_seq(s@).skip(0) =~= upper_seq(s@));
            assert(upper_seq(t@).skip(0) =~= upper_seq(t@));
        }
        r
    }
}

/// Whether the characters of `s` from `i` on come lexicographically no later
/// than those of `t` from `i` on.
fn lex_le_from(s: &str, t: &str, i: usize, s_len: usize, t_len: usize) -> (r: bool)
    requires
        s_len == s@.len(),
        t_len == t@.len(),
        i <= s_len,
        i <= t_len,
    ensures
        r == lex_le(s@.skip(i as int), t@.skip(i as int)),
    decreases s_len - i,
{
    if i == s_len {
        proof {
            assert(s@.skip(i as int).len() == 0);
        }
        true
    } else if i == t_len {
        proof {
            assert(t@.skip(i as int).len() == 0);
            assert(s@.skip(i as int).len() != 0);
        }
        false
    } else {
        let cs = s.get_char(i);
        let ct = t.get_char(i);
        proof {
            assert(s@.skip(i as int)[0] == s@[i as int]);
            assert(t@.skip(i as int)[0] == t@[i as int]);
        }
        if (cs as u32) < (ct as u32) {
            true
        } else if (cs as u32) > (ct as u32) {
            false
        } else {
            let r = lex_le_from(s, t, i + 1, s_len, t_len);
            proof {
                assert(s@.skip(i as int).skip(1) =~= s@.skip(i + 1));
                assert(t@.skip(i as int).skip(1) =~= t@.skip(i + 1));
            }
            r
        }
    }
}

/// Whether `s` comes lexicographically no later than `t`.
pub fn str_le(s: &str, t: &str) -> (r: bool)
    ensures
        r == lex_le(s@, t@),
{
    let s_len = s.unicode_len();
    let t_len = t.unicode_len();
    let r = lex_le_from(s, t, 0, s_len, t_len);
    proof {
        assert(s@.skip(0) =~= s@);
        assert(t@.skip(0) =~= t@);
    }
    r
}

/// Whether `s` and `t` hold the same characters.
pub fn str_eq(s: &str, t: &str) -> (r: bool)
    ensures
        r == (s@ == t@),
{
    let s_len = s.unicode_len();
    let t_len = t.unicode_len();
    if s_len != t_len {
        proof {
            assert(s@.len() != t@.len());
        }
        false
    } else {
        let r = str_eq_from(s, t, 0, s_len);
        proof {
            assert(s@.skip(0) =~= s@);
            assert(t@.skip(0) =~= t@);
        }
        r
    }
}

/// Whether the characters of `s` from `i` on equal those of `t` from `i` on.
fn str_eq_from(s: &str, t: &str, i: usize, len: usize) -> (r: bool)
    requires
        len == s@.len(),
        len == t@.len(),
        i <= len,
    ensures
        r == (s@.skip(i as int) == t@.skip(i as int)),
    decreases len - i,
{
    if i == len {
        proof {
            assert(s@.skip(i as int) =~= t@.skip(i as int));
        }
        true
    } else {
        let cs = s.get_char(i);
        let ct = t.get_char(i);
        proof {
            assert(s@.skip(i as int)[0] == s@[i as int]);
            assert(t@.skip(i as int)[0] == t@[i as int]);
        }
        proof {
            assert(s@.skip(i as int).skip(1) =~= s@.skip(i + 1));
            assert(t@.skip(i as int).skip(1) =~= t@.skip(i + 1));
            lemma_seq_eq_head_tail(s@.skip(i as int), t@.skip(i as int));
        }
        if cs as u32 == ct as u32 {
            str_eq_from(s, t, i + 1, len)
        } else {
            false
        }
    }
}

} // verus!
