//! Exact decimal numbers.
//!
//! A numeric literal is kept as it was written: a sign, the sequence of its
//! decimal digits and a power-of-ten exponent.  The value denoted is
//! `(-1)^neg * digits * 10^exp`, where `digits` is read as an integer.  No
//! rounding happens anywhere in the library; the driver converts to floating
//! point only when it hands the assembled system to a numeric solver.
//!
//! `spec_parse_num` is the grammar of a plain numeric literal:
//! `[+-]? (digits [. digits?] | . digits) ([eE] [+-]? digits)?`, the decimal
//! forms accepted by `f64::from_str`.  The non-finite words (`inf`, `nan`
//! and their spellings) and literals whose written exponent (or fraction
//! length) exceeds `EXP_LIMIT` have no exact-decimal value and are rejected
//! as malformed; they are far outside any physical range this analyzer
//! works in.

use vstd::prelude::*;
use vstd::string::*;

verus! {

/// Exponent-magnitude cutoff for a numeric literal.
pub const EXP_LIMIT: i64 = 1000000000000000;

/// An exact decimal number: `(-1)^neg * digits * 10^exp`.
#[derive(Debug)]
pub struct Num {
    /// Sign: true for a negative literal.
    pub neg: bool,
    /// Decimal digits, most significant first (each 0..=9).
    pub digits: Vec<u8>,
    /// Power-of-ten exponent.
    pub exp: i64,
}

/// Mathematical image of a `Num`.
pub struct NumV {
    pub neg: bool,
    pub digits: Seq<u8>,
    pub exp: int,
}

impl View for Num {
    type V = NumV;

    open spec fn view(&self) -> NumV {
        NumV { neg: self.neg, digits: self.digits@, exp: self.exp as int }
    }
}

impl DeepView for Num {
    type V = NumV;

    open spec fn deep_view(&self) -> NumV {
        self.view()
    }
}

impl Num {
    /// An independent copy with the same value.
    pub fn duplicate(&self) -> (r: Num)
        ensures
            r@ == self@,
    {
        let mut ds: Vec<u8> = Vec::new();
        let mut k: usize = 0;
        while k < self.digits.len()
            invariant
                0 <= k <= self.digits@.len(),
                ds@ == self.digits@.subrange(0, k as int),
            decreases self.digits@.len() - k,
        {
            ds.push(self.digits[k]);
            assert(ds@ =~= self.digits@.subrange(0, k + 1));
            k += 1;
        }
        assert(ds@ =~= self.digits@);
        let r = Num { neg: self.neg, digits: ds, exp: self.exp };
        r
    }
}

/// The number zero, as an element field defaults to when a value token is
/// absent.
pub open spec fn zero_numv() -> NumV {
    NumV { neg: false, digits: Seq::empty(), exp: 0 }
}

pub fn zero_num() -> (r: Num)
    ensures
        r@ == zero_numv(),
{
    let r = Num { neg: false, digits: Vec::new(), exp: 0 };
    assert(r@.digits =~= zero_numv().digits);
    r
}

pub open spec fn is_digit(c: char) -> bool {
    48 <= c as u32 && c as u32 <= 57
}

/// The numeric value of a digit character.
pub open spec fn digit_val(c: char) -> u8 {
    ((c as u32) - 48) as u8
}

pub fn is_digit_char(c: char) -> (r: bool)
    ensures
        r == is_digit(c),
{
    let u = c as u32;
    48 <= u && u <= 57
}

pub fn digit_char_val(c: char) -> (d: u8)
    requires
        is_digit(c),
    ensures
        d == digit_val(c),
{
    ((c as u32) - 48) as u8
}

/// The digit characters of `s[i..j]`, as digit values.
pub open spec fn digits_of(s: Seq<char>, i: int, j: int) -> Seq<u8> {
    s.subrange(i, j).map(|_k: int, c: char| digit_val(c))
}

/// The integer a digit sequence denotes, most significant digit first.
pub open spec fn digits_val(ds: Seq<u8>) -> int
    decreases ds.len(),
{
    if ds.len() == 0 {
        0
    } else {
        digits_val(ds.drop_last()) * 10 + ds.last()
    }
}

pub proof fn lemma_digits_val_nonneg(ds: Seq<u8>)
    ensures
        digits_val(ds) >= 0,
    decreases ds.len(),
{
    if ds.len() > 0 {
        lemma_digits_val_nonneg(ds.drop_last());
    }
}

pub proof fn lemma_digits_val_push(ds: Seq<u8>, d: u8)
    ensures
        digits_val(ds.push(d)) == digits_val(ds) * 10 + d,
{
    assert(ds.push(d).drop_last() =~= ds);
}

proof fn lemma_digits_of_push(s: Seq<char>, i: int, j: int)
    requires
        0 <= i <= j < s.len(),
    ensures
        digits_of(s, i, j + 1) == digits_of(s, i, j).push(digit_val(s[j])),
{
    assert(digits_of(s, i, j + 1) =~= digits_of(s, i, j).push(digit_val(s[j])));
}

/// End of the maximal run of digit characters starting at `i`.
pub open spec fn digit_end(s: Seq<char>, i: int) -> int
    decreases s.len() - i,
{
    if i < 0 || i >= s.len() {
        i
    } else if is_digit(s[i]) {
        digit_end(s, i + 1)
    } else {
        i
    }
}

pub proof fn lemma_digit_end(s: Seq<char>, i: int)
    requires
        0 <= i <= s.len(),
    ensures
        i <= digit_end(s, i) <= s.len(),
        forall|k: int| i <= k < digit_end(s, i) ==> is_digit(#[trigger] s[k]),
        digit_end(s, i) < s.len() ==> !is_digit(s[digit_end(s, i)]),
    decreases s.len() - i,
{
    if i < s.len() && is_digit(s[i]) {
        lemma_digit_end(s, i + 1);
    }
}

pub proof fn lemma_digit_end_unique(s: Seq<char>, i: int, j: int)
    requires
        0 <= i <= j <= s.len(),
        forall|k: int| i <= k < j ==> is_digit(#[trigger] s[k]),
        j == s.len() || !is_digit(s[j]),
    ensures
        digit_end(s, i) == j,
    decreases j - i,
{
    if i < j {
        lemma_digit_end_unique(s, i + 1, j);
    }
}

/// The numeric-literal grammar.  `None` where the token is not a plain
/// decimal literal (or its exponent is beyond `EXP_LIMIT`).
#[verifier::opaque]
pub open spec fn spec_parse_num(s: Seq<char>) -> Option<NumV> {
    let n = s.len() as int;
    let has_sign = n > 0 && (s[0] == '+' || s[0] == '-');
    let i1: int = if has_sign {
        1
    } else {
        0
    };
    let neg = n > 0 && s[0] == '-';
    let j = digit_end(s, i1);
    let has_dot = j < n && s[j] == '.';
    let k = if has_dot {
        digit_end(s, j + 1)
    } else {
        j
    };
    let mant = digits_of(s, i1, j) + (if has_dot {
        digits_of(s, j + 1, k)
    } else {
        Seq::<u8>::empty()
    });
    let flen: int = if has_dot {
        k - (j + 1)
    } else {
        0
    };
    if mant.len() == 0 {
        None
    } else if flen > EXP_LIMIT as int {
        None
    } else if k == n {
        Some(NumV { neg, digits: mant, exp: -flen })
    } else if s[k] == 'e' || s[k] == 'E' {
        let esign = k + 1 < n && (s[k + 1] == '+' || s[k + 1] == '-');
        let eneg = k + 1 < n && s[k + 1] == '-';
        let m = if esign {
            k + 2
        } else {
            k + 1
        };
        let p = digit_end(s, m);
        if p == n && p > m {
            let ev = digits_val(digits_of(s, m, p));
            if ev > EXP_LIMIT as int {
                None
            } else {
                Some(NumV { neg, digits: mant, exp: (if eneg { -ev } else { ev }) - flen })
            }
        } else {
            None
        }
    } else {
        None
    }
}

/// The exponent of a parsed literal is within fixed bounds; magnitude
/// suffixes can then be folded in without overflow.
pub proof fn lemma_parse_num_exp_bounds(s: Seq<char>)
    ensures
        spec_parse_num(s) is Some ==> -2 * (EXP_LIMIT as int)
            <= spec_parse_num(s).unwrap().exp <= EXP_LIMIT as int,
{
    reveal(spec_parse_num);
    if spec_parse_num(s) is Some {
        let n = s.len() as int;
        let has_sign = n > 0 && (s[0] == '+' || s[0] == '-');
        let i1: int = if has_sign {
            1
        } else {
            0
        };
        lemma_digit_end(s, i1);
        let j = digit_end(s, i1);
        let has_dot = j < n && s[j] == '.';
        if has_dot {
            lemma_digit_end(s, j + 1);
        }
        let k = if has_dot {
            digit_end(s, j + 1)
        } else {
            j
        };
        if k != n {
            let esign = k + 1 < n && (s[k + 1] == '+' || s[k + 1] == '-');
            let m = if esign {
                k + 2
            } else {
                k + 1
            };
            let p = digit_end(s, m);
            lemma_digits_val_nonneg(digits_of(s, m, p));
        }
    }
}

/// A token that parses ends in a digit or in `'.'` — never in `'E'`, so a
/// magnitude-suffixed token is never mistaken for a `MEG`-suffixed one.
pub proof fn lemma_parse_num_last_char(s: Seq<char>)
    ensures
        spec_parse_num(s) is Some ==> s.len() > 0 && (is_digit(s[s.len() - 1])
            || s[s.len() - 1] == '.'),
{
    reveal(spec_parse_num);
    if spec_parse_num(s) is Some {
        let n = s.len() as int;
        let has_sign = n > 0 && (s[0] == '+' || s[0] == '-');
        let i1: int = if has_sign {
            1
        } else {
            0
        };
        let j = digit_end(s, i1);
        lemma_digit_end(s, i1);
        let has_dot = j < n && s[j] == '.';
        if has_dot {
            lemma_digit_end(s, j + 1);
        }
        let k = if has_dot {
            digit_end(s, j + 1)
        } else {
            j
        };
        if k == n {
            if has_dot {
                if k > j + 1 {
                    assert(is_digit(s[n - 1]));
                } else {
                    assert(s[n - 1] == '.');
                }
            } else {
                assert(digits_of(s, i1, j).len() > 0);
                assert(is_digit(s[n - 1]));
            }
        } else {
            let esign = k + 1 < n && (s[k + 1] == '+' || s[k + 1] == '-');
            let m = if esign {
                k + 2
            } else {
                k + 1
            };
            lemma_digit_end(s, m);
            assert(is_digit(s[n - 1]));
        }
    }
}

/// Parse a plain decimal literal, exactly as `spec_parse_num` describes it.
pub fn parse_num(s: &str) -> (r: Option<Num>)
    ensures
        match r {
            Some(v) => spec_parse_num(s@) == Some(v@),
            None => spec_parse_num(s@) is None,
        },
{
    proof {
        reveal(spec_parse_num);
    }
    let n = s.unicode_len();
    let mut idx: usize = 0;
    let mut neg = false;
    if n > 0 {
        let c0 = s.get_char(0);
        if c0 == '+' {
            idx = 1;
        } else if c0 == '-' {
            neg = true;
            idx = 1;
        }
    }
    let ghost i1 = idx as int;

    // Integer digits.
    let mut digits: Vec<u8> = Vec::new();
    let mut j = idx;
    assert(digits@ =~= digits_of(s@, i1, j as int));
    while j < n && is_digit_char(s.get_char(j))
        invariant
            idx <= j <= n,
            n == s@.len(),
            i1 == idx as int,
            forall|k: int| i1 <= k < j ==> is_digit(#[trigger] s@[k]),
            digits@ == digits_of(s@, i1, j as int),
        decreases n - j,
    {
        proof {
            lemma_digits_of_push(s@, i1, j as int);
        }
        digits.push(digit_char_val(s.get_char(j)));
        j += 1;
    }
    proof {
        lemma_digit_end_unique(s@, i1, j as int);
    }
    let ghost int_digits = digits@;

    // Optional fraction.
    let mut k = j;
    let mut has_dot = false;
    if j < n && s.get_char(j) == '.' {
        has_dot = true;
        k = j + 1;
        assert(digits@ =~= int_digits + digits_of(s@, j as int + 1, k as int));
        while k < n && is_digit_char(s.get_char(k))
            invariant
                j + 1 <= k <= n,
                n == s@.len(),
                forall|q: int| j + 1 <= q < k ==> is_digit(#[trigger] s@[q]),
                digits@ == int_digits + digits_of(s@, j as int + 1, k as int),
            decreases n - k,
        {
            proof {
                lemma_digits_of_push(s@, j as int + 1, k as int);
                assert(int_digits + digits_of(s@, j as int + 1, k as int + 1)
                    =~= (int_digits + digits_of(s@, j as int + 1, k as int)).push(
                        digit_val(s@[k as int])));
            }
            digits.push(digit_char_val(s.get_char(k)));
            k += 1;
        }
        proof {
            lemma_digit_end_unique(s@, j as int + 1, k as int);
        }
    }
    let flen: usize = if has_dot {
        k - (j + 1)
    } else {
        0
    };
    proof {
        if !has_dot {
            assert(digits@ =~= int_digits + Seq::<u8>::empty());
        }
    }

    if digits.len() == 0 {
        return None;
    }
    if flen as u64 > EXP_LIMIT as u64 {
        return None;
    }
    if k == n {
        return Some(Num { neg, digits, exp: -(flen as i64) });
    }

    // Exponent part.
    let ce = s.get_char(k);
    if ce != 'e' && ce != 'E' {
        return None;
    }
    let mut m = k + 1;
    let mut eneg = false;
    if m < n {
        let cs = s.get_char(m);
        if cs == '+' {
            m += 1;
        } else if cs == '-' {
            eneg = true;
            m += 1;
        }
    }
    if m >= n {
        return None;
    }
    let mut p = m;
    let mut ev: i64 = 0;
    let mut big = false;
    proof {
        assert(digits_of(s@, m as int, p as int) =~= Seq::<u8>::empty());
    }
    while p < n && is_digit_char(s.get_char(p))
        invariant
            m <= p <= n,
            n == s@.len(),
            forall|q: int| m <= q < p ==> is_digit(#[trigger] s@[q]),
            !big ==> 0 <= ev <= EXP_LIMIT && ev == digits_val(digits_of(s@, m as int, p as int)),
            big ==> digits_val(digits_of(s@, m as int, p as int)) > EXP_LIMIT as int,
        decreases n - p,
    {
        let d = digit_char_val(s.get_char(p));
        proof {
            lemma_digits_of_push(s@, m as int, p as int);
            lemma_digits_val_push(digits_of(s@, m as int, p as int), digit_val(s@[p as int]));
            lemma_digits_val_nonneg(digits_of(s@, m as int, p as int));
        }
        if !big {
            let nv: i64 = ev * 10 + (d as i64);
            if nv > EXP_LIMIT {
                big = true;
            } else {
                ev = nv;
            }
        }
        p += 1;
    }
    proof {
        lemma_digit_end_unique(s@, m as int, p as int);
    }
    if p < n {
        return None;
    }
    if p == m {
        return None;
    }
    if big {
        return None;
    }
    let e1: i64 = if eneg {
        -ev
    } else {
        ev
    };
    let exp: i64 = e1 - (flen as i64);
    Some(Num { neg, digits, exp })
}

} // verus!
