//! Character classification and string scanning.
//!
//! Netlist lines are sequences of whitespace-separated tokens.  This module
//! gives the spec-level picture of that structure — maximal runs, splitting
//! on whitespace, trimming, prefix and suffix tests — and executable
//! counterparts proved against it.

use vstd::prelude::*;
use vstd::string::*;

verus! {

/// The characters with the Unicode `White_Space` property, the set that
/// `str::split_whitespace` and `str::trim` split and trim on.
pub open spec fn is_space(c: char) -> bool {
    c == ' ' || c == '\t' || c == '\n' || c == '\u{B}' || c == '\u{C}' || c == '\r'
        || c == '\u{85}' || c == '\u{A0}' || c == '\u{1680}'
        || (0x2000 <= c as u32 && c as u32 <= 0x200A)
        || c == '\u{2028}' || c == '\u{2029}' || c == '\u{202F}' || c == '\u{205F}'
        || c == '\u{3000}'
}

/// Executable `White_Space` test.
pub fn is_space_char(c: char) -> (r: bool)
    ensures
        r == is_space(c),
{
    let u = c as u32;
    c == ' ' || c == '\t' || c == '\n' || c == '\u{B}' || c == '\u{C}' || c == '\r'
        || c == '\u{85}' || c == '\u{A0}' || c == '\u{1680}'
        || (0x2000 <= u && u <= 0x200A)
        || c == '\u{2028}' || c == '\u{2029}' || c == '\u{202F}' || c == '\u{205F}'
        || c == '\u{3000}'
}

/// End of the maximal run of non-whitespace characters starting at `i`.
pub open spec fn non_space_end(s: Seq<char>, i: int) -> int
    decreases s.len() - i,
{
    if i < 0 || i >= s.len() {
        i
    } else if !is_space(s[i]) {
        non_space_end(s, i + 1)
    } else {
        i
    }
}

pub proof fn lemma_non_space_end(s: Seq<char>, i: int)
    requires
        0 <= i <= s.len(),
    ensures
        i <= non_space_end(s, i) <= s.len(),
        forall|k: int| i <= k < non_space_end(s, i) ==> !is_space(#[trigger] s[k]),
        non_space_end(s, i) < s.len() ==> is_space(s[non_space_end(s, i)]),
    decreases s.len() - i,
{
    if i < s.len() && !is_space(s[i]) {
        lemma_non_space_end(s, i + 1);
    }
}

pub proof fn lemma_non_space_end_unique(s: Seq<char>, i: int, j: int)
    requires
        0 <= i <= j <= s.len(),
        forall|k: int| i <= k < j ==> !is_space(#[trigger] s[k]),
        j == s.len() || is_space(s[j]),
    ensures
        non_space_end(s, i) == j,
    decreases j - i,
{
    if i < j {
        lemma_non_space_end_unique(s, i + 1, j);
    }
}

/// End of the maximal run of whitespace characters starting at `i`.
pub open spec fn space_end(s: Seq<char>, i: int) -> int
    decreases s.len() - i,
{
    if i < 0 || i >= s.len() {
        i
    } else if is_space(s[i]) {
        space_end(s, i + 1)
    } else {
        i
    }
}

pub proof fn lemma_space_end_unique(s: Seq<char>, i: int, j: int)
    requires
        0 <= i <= j <= s.len(),
        forall|k: int| i <= k < j ==> is_space(#[trigger] s[k]),
        j == s.len() || !is_space(s[j]),
    ensures
        space_end(s, i) == j,
    decreases j - i,
{
    if i < j {
        lemma_space_end_unique(s, i + 1, j);
    }
}

/// The whitespace-separated tokens of `s` from position `i` on: maximal
/// non-whitespace runs, in order.
pub open spec fn spec_split_ws_from(s: Seq<char>, i: int) -> Seq<Seq<char>>
    decreases s.len() - i,
    when 0 <= i
{
    if i >= s.len() {
        Seq::empty()
    } else if is_space(s[i]) {
        spec_split_ws_from(s, i + 1)
    } else {
        let b = non_space_end(s, i);
        let step = if i < b && b <= s.len() {
            b
        } else {
            i + 1
        };
        seq![s.subrange(i, step)] + spec_split_ws_from(s, step)
    }
}

/// The whitespace-separated tokens of `s`, as `str::split_whitespace`
/// yields them.
pub open spec fn spec_split_ws(s: Seq<char>) -> Seq<Seq<char>> {
    spec_split_ws_from(s, 0)
}

/// At a non-whitespace position the split yields the maximal token starting
/// there, followed by the split of the rest.
pub proof fn lemma_split_ws_token(s: Seq<char>, i: int)
    requires
        0 <= i < s.len(),
        !is_space(s[i]),
    ensures
        i < non_space_end(s, i) <= s.len(),
        spec_split_ws_from(s, i) == seq![s.subrange(i, non_space_end(s, i))]
            + spec_split_ws_from(s, non_space_end(s, i)),
{
    lemma_non_space_end(s, i + 1);
    assert(non_space_end(s, i) == non_space_end(s, i + 1));
}

/// Position just after the last non-whitespace character in `s[..j]`
/// (0 if there is none).
pub open spec fn rspace_start(s: Seq<char>, j: int) -> int
    decreases j,
{
    if j <= 0 {
        0
    } else if is_space(s[j - 1]) {
        rspace_start(s, j - 1)
    } else {
        j
    }
}

pub proof fn lemma_rspace_start_unique(s: Seq<char>, n: int, b: int)
    requires
        0 < b <= n <= s.len(),
        forall|k: int| b <= k < n ==> is_space(#[trigger] s[k]),
        !is_space(s[b - 1]),
    ensures
        rspace_start(s, n) == b,
    decreases n - b,
{
    if b < n {
        lemma_rspace_start_unique(s, n - 1, b);
    }
}

/// `s` with leading and trailing whitespace removed, as `str::trim`.
pub open spec fn spec_trim(s: Seq<char>) -> Seq<char> {
    let a = space_end(s, 0);
    if a >= s.len() {
        Seq::empty()
    } else {
        s.subrange(a, rspace_start(s, s.len() as int))
    }
}

/// `p` is a prefix of `s`.
pub open spec fn starts_with_seq(s: Seq<char>, p: Seq<char>) -> bool {
    p.len() <= s.len() && s.subrange(0, p.len() as int) == p
}

/// `p` is a suffix of `s`.
pub open spec fn ends_with_seq(s: Seq<char>, p: Seq<char>) -> bool {
    p.len() <= s.len() && s.subrange(s.len() - p.len(), s.len() as int) == p
}

/// Executable prefix test.
pub fn str_starts_with(s: &str, p: &str) -> (r: bool)
    ensures
        r == starts_with_seq(s@, p@),
{
    let n = s.unicode_len();
    let m = p.unicode_len();
    if m > n {
        return false;
    }
    let mut i: usize = 0;
    while i < m
        invariant
            0 <= i <= m,
            m <= n,
            n == s@.len(),
            m == p@.len(),
            forall|k: int| 0 <= k < i ==> s@[k] == p@[k],
        decreases m - i,
    {
        if s.get_char(i) != p.get_char(i) {
            assert(s@.subrange(0, m as int)[i as int] != p@[i as int]);
            return false;
        }
        i += 1;
    }
    assert(s@.subrange(0, m as int) =~= p@);
    true
}

/// Executable string equality over views.
pub fn str_eq(s: &str, p: &str) -> (r: bool)
    ensures
        r == (s@ == p@),
{
    let n = s.unicode_len();
    let m = p.unicode_len();
    if m != n {
        assert(s@ != p@);
        return false;
    }
    let mut i: usize = 0;
    while i < m
        invariant
            0 <= i <= m,
            n == s@.len(),
            m == p@.len(),
            m == n,
            forall|k: int| 0 <= k < i ==> s@[k] == p@[k],
        decreases m - i,
    {
        if s.get_char(i) != p.get_char(i) {
            return false;
        }
        i += 1;
    }
    assert(s@ =~= p@);
    true
}

/// Executable suffix test.
pub fn str_ends_with(s: &str, p: &str) -> (r: bool)
    ensures
        r == ends_with_seq(s@, p@),
{
    let n = s.unicode_len();
    let m = p.unicode_len();
    if m > n {
        return false;
    }
    let off = n - m;
    let mut i: usize = 0;
    while i < m
        invariant
            0 <= i <= m,
            off == n - m,
            m <= n,
            n == s@.len(),
            m == p@.len(),
            forall|k: int| 0 <= k < i ==> s@[off + k] == p@[k],
        decreases m - i,
    {
        if s.get_char(off + i) != p.get_char(i) {
            assert(s@.subrange(n - m, n as int)[i as int] != p@[i as int]);
            return false;
        }
        i += 1;
    }
    assert(s@.subrange(n - m, n as int) =~= p@);
    true
}

/// Executable whitespace split; the tokens are owned copies.
pub fn split_whitespace_owned(s: &str) -> (toks: Vec<String>)
    ensures
        toks.deep_view() == spec_split_ws(s@),
{
    let n = s.unicode_len();
    let mut toks: Vec<String> = Vec::new();
    assert(toks.deep_view() + spec_split_ws_from(s@, 0) =~~= spec_split_ws_from(s@, 0));
    let mut i: usize = 0;
    while i < n
        invariant
            0 <= i <= n,
            n == s@.len(),
            spec_split_ws(s@) == toks.deep_view() + spec_split_ws_from(s@, i as int),
        decreases n - i,
    {
        if is_space_char(s.get_char(i)) {
            i += 1;
        } else {
            proof {
                lemma_split_ws_token(s@, i as int);
            }
            let mut j: usize = i + 1;
            while j < n && !is_space_char(s.get_char(j))
                invariant
                    i < j <= n,
                    n == s@.len(),
                    !is_space(s@[i as int]),
                    forall|k: int| i <= k < j ==> !is_space(#[trigger] s@[k]),
                decreases n - j,
            {
                j += 1;
            }
            proof {
                lemma_non_space_end_unique(s@, i as int, j as int);
            }
            let tok: String = s.substring_char(i, j).to_owned();
            let ghost pre = toks.deep_view();
            toks.push(tok);
            proof {
                assert(toks.deep_view() =~~= pre.push(s@.subrange(i as int, j as int)));
                assert(pre.push(s@.subrange(i as int, j as int))
                    + spec_split_ws_from(s@, j as int)
                    =~~= pre + (seq![s@.subrange(i as int, j as int)]
                        + spec_split_ws_from(s@, j as int)));
            }
            i = j;
        }
    }
    assert(toks.deep_view() + spec_split_ws_from(s@, i as int) =~~= toks.deep_view());
    toks
}

/// Executable trim; the result is an owned copy.
pub fn trim_owned(s: &str) -> (r: String)
    ensures
        r@ == spec_trim(s@),
{
    let n = s.unicode_len();
    let mut a: usize = 0;
    while a < n && is_space_char(s.get_char(a))
        invariant
            0 <= a <= n,
            n == s@.len(),
            forall|k: int| 0 <= k < a ==> is_space(#[trigger] s@[k]),
        decreases n - a,
    {
        a += 1;
    }
    proof {
        lemma_space_end_unique(s@, 0, a as int);
    }
    if a == n {
        let r = String::new();
        assert(r@ =~= spec_trim(s@));
        return r;
    }
    let mut b: usize = n;
    while b > a && is_space_char(s.get_char(b - 1))
        invariant
            a < b <= n,
            n == s@.len(),
            !is_space(s@[a as int]),
            forall|k: int| b <= k < n ==> is_space(#[trigger] s@[k]),
        decreases b,
    {
        // `s[a]` is not whitespace, so the scan can never step onto `a`.
        assert(b - 1 != a) by {
            if b - 1 == a {
                assert(is_space(s@[a as int]));
            }
        }
        b -= 1;
    }
    proof {
        lemma_rspace_start_unique(s@, n as int, b as int);
    }
    s.substring_char(a, b).to_owned()
}

} // verus!
