//! The value resolver: numeric tokens with SI magnitude suffixes and unit
//! suffixes.
//!
//! `parse_value` resolves a bare token (`"4u"`, `"1K"`, `"4MEG"`);
//! `parse_unitvalue` first strips a unit suffix (`"V"`, `"Hz"`, ...);
//! `parse_named_value` additionally strips an optional `name=` prefix.
//! The exact `"MEG"` suffix is checked before any single-character suffix
//! and therefore takes precedence over `'G'`.

use vstd::prelude::*;
use vstd::string::*;
use crate::chars::{ends_with_seq, str_starts_with, str_ends_with};
use crate::num::{
    Num, NumV, parse_num, spec_parse_num, lemma_parse_num_exp_bounds, lemma_parse_num_last_char,
};
use crate::SpiceError;

verus! {

/// The fixed SI magnitude table: the power of ten a trailing character
/// selects, `None` where the character selects multiplier 1.
pub open spec fn spec_magnitude_exp(c: char) -> Option<int> {
    if c == 'k' || c == 'K' {
        Some(3int)
    } else if c == 'M' {
        Some(6int)
    } else if c == 'G' {
        Some(9int)
    } else if c == 'm' {
        Some(-3int)
    } else if c == 'u' {
        Some(-6int)
    } else if c == 'n' {
        Some(-9int)
    } else if c == 'p' {
        Some(-12int)
    } else {
        None
    }
}

fn magnitude_exp_char(c: char) -> (r: Option<i64>)
    ensures
        match r {
            Some(d) => spec_magnitude_exp(c) == Some(d as int),
            None => spec_magnitude_exp(c) is None,
        },
{
    if c == 'k' || c == 'K' {
        Some(3)
    } else if c == 'M' {
        Some(6)
    } else if c == 'G' {
        Some(9)
    } else if c == 'm' {
        Some(-3)
    } else if c == 'u' {
        Some(-6)
    } else if c == 'n' {
        Some(-9)
    } else if c == 'p' {
        Some(-12)
    } else {
        None
    }
}

/// The same number scaled by ten to the `d`.
pub open spec fn shift_exp(v: NumV, d: int) -> NumV {
    NumV { neg: v.neg, digits: v.digits, exp: v.exp + d }
}

/// The token ends with the exact, case-sensitive suffix `"MEG"`.
pub open spec fn ends_with_meg(s: Seq<char>) -> bool {
    s.len() >= 3 && s[s.len() - 3] == 'M' && s[s.len() - 2] == 'E' && s[s.len() - 1] == 'G'
}

/// Value resolution: strip `"MEG"` or a single magnitude-suffix character,
/// parse the remainder, and fold the power of ten into the exponent.
pub open spec fn spec_resolve(s: Seq<char>) -> Option<NumV> {
    if ends_with_meg(s) {
        match spec_parse_num(s.take(s.len() - 3)) {
            Some(v) => Some(shift_exp(v, 6)),
            None => None,
        }
    } else if s.len() > 0 && spec_magnitude_exp(s[s.len() - 1]) is Some {
        match spec_parse_num(s.take(s.len() - 1)) {
            Some(v) => Some(shift_exp(v, spec_magnitude_exp(s[s.len() - 1]).unwrap())),
            None => None,
        }
    } else {
        spec_parse_num(s)
    }
}

/// Resolve a numeric token with an optional SI magnitude suffix.  Fails
/// with `MalformedNumber` exactly when the stripped remainder is not a
/// plain decimal literal.
pub fn parse_value(value: &str) -> (r: Result<Num, SpiceError>)
    ensures
        match r {
            Ok(v) => spec_resolve(value@) == Some(v@),
            Err(e) => spec_resolve(value@) is None && e matches SpiceError::MalformedNumber,
        },
{
    let n = value.unicode_len();
    if n >= 3 && value.get_char(n - 3) == 'M' && value.get_char(n - 2) == 'E'
        && value.get_char(n - 1) == 'G' {
        let rest = value.substring_char(0, n - 3);
        assert(rest@ =~= value@.take(value@.len() - 3));
        match parse_num(rest) {
            Some(v) => {
                proof {
                    lemma_parse_num_exp_bounds(rest@);
                }
                Ok(Num { neg: v.neg, digits: v.digits, exp: v.exp + 6 })
            },
            None => Err(SpiceError::MalformedNumber),
        }
    } else {
        let me: Option<i64> = if n > 0 {
            magnitude_exp_char(value.get_char(n - 1))
        } else {
            None
        };
        match me {
            Some(d) => {
                let rest = value.substring_char(0, n - 1);
                assert(rest@ =~= value@.take(value@.len() - 1));
                match parse_num(rest) {
                    Some(v) => {
                        proof {
                            lemma_parse_num_exp_bounds(rest@);
                        }
                        Ok(Num { neg: v.neg, digits: v.digits, exp: v.exp + d })
                    },
                    None => Err(SpiceError::MalformedNumber),
                }
            },
            None => {
                match parse_num(value) {
                    Some(v) => Ok(v),
                    None => Err(SpiceError::MalformedNumber),
                }
            },
        }
    }
}

/// Index of the first unit in `units[i..]` that is a suffix of `s`.
pub open spec fn first_unit_match(s: Seq<char>, units: Seq<Seq<char>>, i: int) -> Option<int>
    decreases units.len() - i,
{
    if i < 0 || i >= units.len() {
        None
    } else if ends_with_seq(s, units[i]) {
        Some(i)
    } else {
        first_unit_match(s, units, i + 1)
    }
}

proof fn lemma_first_unit_skip(s: Seq<char>, units: Seq<Seq<char>>, i: int)
    requires
        0 <= i <= units.len(),
        forall|k: int| 0 <= k < i ==> !ends_with_seq(s, #[trigger] units[k]),
    ensures
        first_unit_match(s, units, 0) == first_unit_match(s, units, i),
    decreases i,
{
    if i > 0 {
        lemma_first_unit_skip(s, units, i - 1);
    }
}

/// Unit-suffix resolution: strip the first matching unit of the set, then
/// resolve.
pub open spec fn spec_resolve_unit(s: Seq<char>, units: Seq<Seq<char>>) -> Option<NumV> {
    match first_unit_match(s, units, 0) {
        Some(i) => spec_resolve(s.take(s.len() - units[i].len())),
        None => spec_resolve(s),
    }
}

/// Resolve a numeric token after stripping the first unit of `units` found
/// at its end (first match wins; no longest-match rule).
pub fn parse_unitvalue(value: &str, units: &[&str]) -> (r: Result<Num, SpiceError>)
    ensures
        match r {
            Ok(v) => spec_resolve_unit(value@, units.deep_view()) == Some(v@),
            Err(e) => spec_resolve_unit(value@, units.deep_view()) is None
                && e matches SpiceError::MalformedNumber,
        },
{
    let ghost uv = units.deep_view();
    let n = value.unicode_len();
    let m = units.len();
    assert(uv.len() == m);
    let mut i: usize = 0;
    while i < m
        invariant
            0 <= i <= m,
            m == uv.len(),
            uv == units.deep_view(),
            n == value@.len(),
            forall|k: int| 0 <= k < i ==> !ends_with_seq(value@, #[trigger] uv[k]),
        decreases m - i,
    {
        let u: &str = units[i];
        assert(u@ == uv[i as int]);
        if str_ends_with(value, u) {
            proof {
                lemma_first_unit_skip(value@, uv, i as int);
            }
            let ul = u.unicode_len();
            let rest = value.substring_char(0, n - ul);
            assert(rest@ =~= value@.take(value@.len() - uv[i as int].len()));
            return parse_value(rest);
        }
        i += 1;
    }
    proof {
        lemma_first_unit_skip(value@, uv, m as int);
    }
    parse_value(value)
}

/// Named-value resolution: strip an optional `name=` prefix, but only when
/// the whole token is at least 3 characters long; shorter tokens skip the
/// prefix check.  (A 2-character named-prefixed token is therefore read as
/// a bare value — intentional, kept as the grammar defines it.)
pub open spec fn spec_resolve_named(s: Seq<char>, name: Seq<char>, units: Seq<Seq<char>>)
    -> Option<NumV> {
    if s.len() < 3 {
        spec_resolve_unit(s, units)
    } else if name.len() + 1 <= s.len() && s.subrange(0, name.len() as int) == name
        && s[name.len() as int] == '=' {
        spec_resolve_unit(s.skip(name.len() + 1 as int), units)
    } else {
        spec_resolve_unit(s, units)
    }
}

/// Resolve a token of the form `name=value[unit]` (or a bare
/// `value[unit]`).
pub fn parse_named_value(value: &str, name: &str, units: &[&str]) -> (r: Result<Num, SpiceError>)
    ensures
        match r {
            Ok(v) => spec_resolve_named(value@, name@, units.deep_view()) == Some(v@),
            Err(e) => spec_resolve_named(value@, name@, units.deep_view()) is None
                && e matches SpiceError::MalformedNumber,
        },
{
    let n = value.unicode_len();
    if n < 3 {
        return parse_unitvalue(value, units);
    }
    let nl = name.unicode_len();
    if nl < n && str_starts_with(value, name) && value.get_char(nl) == '=' {
        let rest = value.substring_char(nl + 1, n);
        assert(rest@ =~= value@.skip(name@.len() + 1 as int));
        parse_unitvalue(rest, units)
    } else {
        parse_unitvalue(value, units)
    }
}

/// For every magnitude suffix `c` and numeric prefix `x`, resolving `x`
/// followed by `c` yields the value of `x` scaled by the suffix's power of
/// ten.  (The prefix of a parsed literal never ends in `'E'`, so the
/// single-character branch, not the `"MEG"` branch, always applies.)
pub proof fn lemma_resolve_suffix(x: Seq<char>, c: char)
    requires
        spec_magnitude_exp(c) is Some,
        spec_parse_num(x) is Some,
    ensures
        spec_resolve(x.push(c)) == Some(
            shift_exp(spec_parse_num(x).unwrap(), spec_magnitude_exp(c).unwrap())),
{
    let t = x.push(c);
    lemma_parse_num_last_char(x);
    assert(t[t.len() - 1] == c);
    if ends_with_meg(t) {
        assert(t[t.len() - 2] == x[x.len() - 1]);
        assert(false);
    }
    assert(t.take(t.len() - 1) =~= x);
}

/// Resolving `x` followed by `"MEG"` yields the value of `x` scaled by
/// `1e6`, whatever `x`'s own last character is — the `"MEG"` check comes
/// first.
pub proof fn lemma_resolve_meg(x: Seq<char>)
    ensures
        spec_resolve(x + seq!['M', 'E', 'G']) == match spec_parse_num(x) {
            Some(v) => Some(shift_exp(v, 6)),
            None => None,
        },
{
    let t = x + seq!['M', 'E', 'G'];
    assert(t[t.len() - 3] == 'M' && t[t.len() - 2] == 'E' && t[t.len() - 1] == 'G');
    assert(ends_with_meg(t));
    assert(t.take(t.len() - 3) =~= x);
}

/// Round-trip: a token that is itself a plain decimal literal resolves to
/// exactly the number it writes.  Its last character is a digit or `'.'`,
/// so neither the `"MEG"` suffix nor any magnitude character fires on it;
/// re-serializing a parsed value as a plain literal and resolving it
/// again therefore reconstructs the same exact value.
pub proof fn lemma_literal_resolves_exactly(t: Seq<char>)
    requires
        spec_parse_num(t) is Some,
    ensures
        spec_resolve(t) == spec_parse_num(t),
{
    lemma_parse_num_last_char(t);
}

/// Unit resolution is a no-op on the unit set when no unit of the set
/// matches the token's end: the token resolves exactly as a bare value.
pub proof fn lemma_resolve_unit_noop(s: Seq<char>, units: Seq<Seq<char>>)
    requires
        forall|i: int| 0 <= i < units.len() ==> !ends_with_seq(s, #[trigger] units[i]),
    ensures
        spec_resolve_unit(s, units) == spec_resolve(s),
{
    lemma_first_unit_skip(s, units, units.len() as int);
}

} // verus!
