//! The waveform decoder: independent-source descriptors.
//!
//! A descriptor is dispatched on its case-sensitive prefix — `DC`, `AC`,
//! `PULSE`, `SIN`, `EXP`, `PWL`, `SFFM`, in that priority order; any other
//! token is an implicit DC value.  The parenthesized forms take their
//! positional parameters from the content between the first `'('` and the
//! first `')'` after it.  Only the DC variant carries an operating-point
//! value; the others are parsed into structure but contribute nothing to
//! the DC system.

use vstd::prelude::*;
use vstd::string::*;
use crate::chars::{
    spec_split_ws, split_whitespace_owned, starts_with_seq, str_starts_with,
};
use crate::num::{Num, NumV};
use crate::parse_util::{parse_unitvalue, spec_resolve_unit};
use crate::SpiceError;

verus! {

/// An independent-source waveform.
#[derive(Debug)]
pub enum InputSource {
    DC { voltage: Num },
    AC { mag: Num, phase: Option<Num> },
    Pulse { v1: Num, v2: Num, tdelay: Num, trise: Num, tfall: Num, width: Num, period: Num },
    Sin {
        voffset: Num,
        vpeak: Num,
        freq: Num,
        tdelay: Option<Num>,
        damp_factor: Option<Num>,
        phase: Option<Num>,
    },
    Exp { v1: Num, v2: Num, trise_delay: Num, tau_rise: Num, tfall_delay: Num, tau_fall: Num },
    PWL { points: Vec<(Num, Num)> },
    SFFM { voffset: Num, vpeak: Num, fcarrier: Num, mod_index: Num, fsignal: Num },
}

/// Mathematical image of an `InputSource`.
pub enum InputSourceV {
    DC { voltage: NumV },
    AC { mag: NumV, phase: Option<NumV> },
    Pulse { v1: NumV, v2: NumV, tdelay: NumV, trise: NumV, tfall: NumV, width: NumV, period: NumV },
    Sin {
        voffset: NumV,
        vpeak: NumV,
        freq: NumV,
        tdelay: Option<NumV>,
        damp_factor: Option<NumV>,
        phase: Option<NumV>,
    },
    Exp { v1: NumV, v2: NumV, trise_delay: NumV, tau_rise: NumV, tfall_delay: NumV, tau_fall: NumV },
    PWL { points: Seq<(NumV, NumV)> },
    SFFM { voffset: NumV, vpeak: NumV, fcarrier: NumV, mod_index: NumV, fsignal: NumV },
}

impl View for InputSource {
    type V = InputSourceV;

    open spec fn view(&self) -> InputSourceV {
        match self {
            InputSource::DC { voltage } => InputSourceV::DC { voltage: voltage@ },
            InputSource::AC { mag, phase } => InputSourceV::AC {
                mag: mag@,
                phase: phase.deep_view(),
            },
            InputSource::Pulse { v1, v2, tdelay, trise, tfall, width, period } =>
                InputSourceV::Pulse {
                    v1: v1@,
                    v2: v2@,
                    tdelay: tdelay@,
                    trise: trise@,
                    tfall: tfall@,
                    width: width@,
                    period: period@,
                },
            InputSource::Sin { voffset, vpeak, freq, tdelay, damp_factor, phase } =>
                InputSourceV::Sin {
                    voffset: voffset@,
                    vpeak: vpeak@,
                    freq: freq@,
                    tdelay: tdelay.deep_view(),
                    damp_factor: damp_factor.deep_view(),
                    phase: phase.deep_view(),
                },
            InputSource::Exp { v1, v2, trise_delay, tau_rise, tfall_delay, tau_fall } =>
                InputSourceV::Exp {
                    v1: v1@,
                    v2: v2@,
                    trise_delay: trise_delay@,
                    tau_rise: tau_rise@,
                    tfall_delay: tfall_delay@,
                    tau_fall: tau_fall@,
                },
            InputSource::PWL { points } => InputSourceV::PWL { points: points.deep_view() },
            InputSource::SFFM { voffset, vpeak, fcarrier, mod_index, fsignal } =>
                InputSourceV::SFFM {
                    voffset: voffset@,
                    vpeak: vpeak@,
                    fcarrier: fcarrier@,
                    mod_index: mod_index@,
                    fsignal: fsignal@,
                },
        }
    }
}

impl DeepView for InputSource {
    type V = InputSourceV;

    open spec fn deep_view(&self) -> InputSourceV {
        self.view()
    }
}

/// Magnitude units: volts for a voltage source, amperes for a current
/// source.
pub open spec fn spec_units(is_voltage: bool) -> Seq<Seq<char>> {
    if is_voltage {
        seq![seq!['V'], seq!['v']]
    } else {
        seq![seq!['A'], seq!['a']]
    }
}

pub open spec fn spec_time_units() -> Seq<Seq<char>> {
    seq![seq!['s']]
}

pub open spec fn spec_freq_units() -> Seq<Seq<char>> {
    seq![seq!['H', 'z']]
}

/// Unit set for PWL parameters: magnitude units plus seconds, one common
/// set for every position.
pub open spec fn spec_pwl_units(is_voltage: bool) -> Seq<Seq<char>> {
    spec_units(is_voltage).push(seq!['s'])
}

/// The `index`-th positional parameter, resolved with the given unit set;
/// `None` when absent or unresolvable.
pub open spec fn spec_param(params: Seq<Seq<char>>, i: int, units: Seq<Seq<char>>)
    -> Option<NumV> {
    if 0 <= i < params.len() {
        spec_resolve_unit(params[i], units)
    } else {
        None
    }
}

/// First position at or after `i` that is not a `'('` (or the end).
pub open spec fn to_open_end(s: Seq<char>, i: int) -> int
    decreases s.len() - i,
{
    if i < 0 || i >= s.len() {
        i
    } else if s[i] != '(' {
        to_open_end(s, i + 1)
    } else {
        i
    }
}

pub proof fn lemma_to_open_end_unique(s: Seq<char>, i: int, j: int)
    requires
        0 <= i <= j <= s.len(),
        forall|k: int| i <= k < j ==> #[trigger] s[k] != '(',
        j == s.len() || s[j] == '(',
    ensures
        to_open_end(s, i) == j,
    decreases j - i,
{
    if i < j {
        lemma_to_open_end_unique(s, i + 1, j);
    }
}

/// First position at or after `i` that is not a `')'` (or the end).
pub open spec fn to_close_end(s: Seq<char>, i: int) -> int
    decreases s.len() - i,
{
    if i < 0 || i >= s.len() {
        i
    } else if s[i] != ')' {
        to_close_end(s, i + 1)
    } else {
        i
    }
}

pub proof fn lemma_to_close_end_unique(s: Seq<char>, i: int, j: int)
    requires
        0 <= i <= j <= s.len(),
        forall|k: int| i <= k < j ==> #[trigger] s[k] != ')',
        j == s.len() || s[j] == ')',
    ensures
        to_close_end(s, i) == j,
    decreases j - i,
{
    if i < j {
        lemma_to_close_end_unique(s, i + 1, j);
    }
}

/// The content between the first `'('` and the first `')'` after it;
/// `None` when either is absent.
pub open spec fn spec_extract_parens(s: Seq<char>) -> Option<Seq<char>> {
    let p = to_open_end(s, 0);
    if p >= s.len() {
        None
    } else {
        let q = to_close_end(s, p);
        if q >= s.len() {
            None
        } else {
            Some(s.subrange(p + 1, q))
        }
    }
}

fn extract_parens(s: &str) -> (r: Option<String>)
    ensures
        match r {
            Some(c) => spec_extract_parens(s@) == Some(c@),
            None => spec_extract_parens(s@) is None,
        },
{
    let n = s.unicode_len();
    let mut p: usize = 0;
    while p < n && s.get_char(p) != '('
        invariant
            0 <= p <= n,
            n == s@.len(),
            forall|k: int| 0 <= k < p ==> #[trigger] s@[k] != '(',
        decreases n - p,
    {
        p += 1;
    }
    proof {
        lemma_to_open_end_unique(s@, 0, p as int);
    }
    if p == n {
        return None;
    }
    let mut q: usize = p;
    while q < n && s.get_char(q) != ')'
        invariant
            p <= q <= n,
            n == s@.len(),
            forall|k: int| p <= k < q ==> #[trigger] s@[k] != ')',
        decreases n - q,
    {
        q += 1;
    }
    proof {
        lemma_to_close_end_unique(s@, p as int, q as int);
    }
    if q == n {
        return None;
    }
    assert(s@[p as int] == '(');
    Some(s.substring_char(p + 1, q).to_owned())
}

/// One resolved positional parameter, executable side.
fn get_param(params: &Vec<String>, index: usize, units: &Vec<&str>) -> (r: Option<Num>)
    ensures
        match r {
            Some(v) => spec_param(params.deep_view(), index as int, units.deep_view())
                == Some(v@),
            None => spec_param(params.deep_view(), index as int, units.deep_view()) is None,
        },
{
    if index < params.len() {
        assert(params.deep_view()[index as int] == params@[index as int]@);
        let us: &[&str] = units.as_slice();
        assert(us.deep_view() =~~= units.deep_view());
        match parse_unitvalue(params[index].as_str(), us) {
            Ok(v) => Some(v),
            Err(_) => None,
        }
    } else {
        None
    }
}

fn magnitude_units(is_voltage: bool) -> (r: Vec<&'static str>)
    ensures
        r.deep_view() == spec_units(is_voltage),
{
    let mut v: Vec<&'static str> = Vec::new();
    if is_voltage {
        v.push("V");
        v.push("v");
        proof {
            reveal_strlit("V");
            reveal_strlit("v");
            assert(v.deep_view() =~~= spec_units(true));
        }
    } else {
        v.push("A");
        v.push("a");
        proof {
            reveal_strlit("A");
            reveal_strlit("a");
            assert(v.deep_view() =~~= spec_units(false));
        }
    }
    v
}

fn time_units() -> (r: Vec<&'static str>)
    ensures
        r.deep_view() == spec_time_units(),
{
    let mut v: Vec<&'static str> = Vec::new();
    v.push("s");
    proof {
        reveal_strlit("s");
        assert(v.deep_view() =~~= spec_time_units());
    }
    v
}

fn freq_units() -> (r: Vec<&'static str>)
    ensures
        r.deep_view() == spec_freq_units(),
{
    let mut v: Vec<&'static str> = Vec::new();
    v.push("Hz");
    proof {
        reveal_strlit("Hz");
        assert(v.deep_view() =~~= spec_freq_units());
    }
    v
}

fn no_units() -> (r: Vec<&'static str>)
    ensures
        r.deep_view() == Seq::<Seq<char>>::empty(),
{
    let v: Vec<&'static str> = Vec::new();
    assert(v.deep_view() =~~= Seq::<Seq<char>>::empty());
    v
}

fn pwl_units(is_voltage: bool) -> (r: Vec<&'static str>)
    ensures
        r.deep_view() == spec_pwl_units(is_voltage),
{
    let mut v = magnitude_units(is_voltage);
    v.push("s");
    proof {
        reveal_strlit("s");
        assert(v.deep_view() =~~= spec_pwl_units(is_voltage));
    }
    v
}

/// End of the run of resolvable PWL parameters starting at `i`.
pub open spec fn pwl_end(ps: Seq<Seq<char>>, units: Seq<Seq<char>>, i: int) -> int
    decreases ps.len() - i,
{
    if i < 0 || i >= ps.len() {
        i
    } else if spec_param(ps, i, units) is Some {
        pwl_end(ps, units, i + 1)
    } else {
        i
    }
}

pub proof fn lemma_pwl_end_unique(ps: Seq<Seq<char>>, units: Seq<Seq<char>>, i: int, j: int)
    requires
        0 <= i <= j <= ps.len(),
        forall|k: int| i <= k < j ==> #[trigger] spec_param(ps, k, units) is Some,
        j == ps.len() || spec_param(ps, j, units) is None,
    ensures
        pwl_end(ps, units, i) == j,
    decreases j - i,
{
    if i < j {
        lemma_pwl_end_unique(ps, units, i + 1, j);
    }
}

/// The PWL point list: as many parameters as resolve, taken pairwise as
/// `(time, value)`; an odd trailing unpaired value is dropped.
pub open spec fn spec_pwl_points(ps: Seq<Seq<char>>, units: Seq<Seq<char>>)
    -> Seq<(NumV, NumV)> {
    let cnt = pwl_end(ps, units, 0);
    Seq::new((cnt / 2) as nat, |t: int|
        (spec_param(ps, 2 * t, units).unwrap(), spec_param(ps, 2 * t + 1, units).unwrap()))
}


/// The waveform of a `DC`-prefixed descriptor: the parameter in the second
/// token slot.
pub open spec fn spec_dc_source(s: Seq<char>, units: Seq<Seq<char>>) -> Option<InputSourceV> {
    match spec_param(spec_split_ws(s), 1, units) {
        Some(v) => Some(InputSourceV::DC { voltage: v }),
        None => None,
    }
}

/// The waveform of an `AC`-prefixed descriptor.  The phase re-reads the
/// magnitude's token slot, so it always equals the magnitude — kept as the
/// grammar defines it.
pub open spec fn spec_ac_source(s: Seq<char>, units: Seq<Seq<char>>) -> Option<InputSourceV> {
    match spec_param(spec_split_ws(s), 1, units) {
        Some(v) => Some(InputSourceV::AC { mag: v, phase: Some(v) }),
        None => None,
    }
}

/// The waveform of a bare-number descriptor: an implicit DC value in the
/// first token slot.
pub open spec fn spec_implicit_dc(s: Seq<char>, units: Seq<Seq<char>>) -> Option<InputSourceV> {
    match spec_param(spec_split_ws(s), 0, units) {
        Some(v) => Some(InputSourceV::DC { voltage: v }),
        None => None,
    }
}

/// The PULSE waveform from its parenthesized parameter list: seven
/// required parameters.
pub open spec fn spec_pulse_params(ps: Seq<Seq<char>>, units: Seq<Seq<char>>)
    -> Option<InputSourceV> {
    let v1 = spec_param(ps, 0, units);
    let v2 = spec_param(ps, 1, units);
    let tdelay = spec_param(ps, 2, spec_time_units());
    let trise = spec_param(ps, 3, spec_time_units());
    let tfall = spec_param(ps, 4, spec_time_units());
    let width = spec_param(ps, 5, spec_time_units());
    let period = spec_param(ps, 6, spec_time_units());
    if v1 is Some && v2 is Some && tdelay is Some && trise is Some && tfall is Some
        && width is Some && period is Some {
        Some(InputSourceV::Pulse {
            v1: v1.unwrap(),
            v2: v2.unwrap(),
            tdelay: tdelay.unwrap(),
            trise: trise.unwrap(),
            tfall: tfall.unwrap(),
            width: width.unwrap(),
            period: period.unwrap(),
        })
    } else {
        None
    }
}

/// The SIN waveform from its parameter list: three required parameters,
/// then three independently optional ones — delay, damping factor and
/// phase, each read from its own positional slot.
pub open spec fn spec_sin_params(ps: Seq<Seq<char>>, units: Seq<Seq<char>>)
    -> Option<InputSourceV> {
    let voffset = spec_param(ps, 0, units);
    let vpeak = spec_param(ps, 1, units);
    let freq = spec_param(ps, 2, spec_freq_units());
    if voffset is Some && vpeak is Some && freq is Some {
        Some(InputSourceV::Sin {
            voffset: voffset.unwrap(),
            vpeak: vpeak.unwrap(),
            freq: freq.unwrap(),
            tdelay: spec_param(ps, 3, spec_time_units()),
            damp_factor: spec_param(ps, 4, spec_time_units()),
            phase: spec_param(ps, 5, spec_time_units()),
        })
    } else {
        None
    }
}

/// The EXP waveform from its parameter list: six required parameters.
pub open spec fn spec_exp_params(ps: Seq<Seq<char>>, units: Seq<Seq<char>>)
    -> Option<InputSourceV> {
    let v1 = spec_param(ps, 0, units);
    let v2 = spec_param(ps, 1, units);
    let trise_delay = spec_param(ps, 2, spec_time_units());
    let tau_rise = spec_param(ps, 3, spec_time_units());
    let tfall_delay = spec_param(ps, 4, spec_time_units());
    let tau_fall = spec_param(ps, 5, spec_time_units());
    if v1 is Some && v2 is Some && trise_delay is Some && tau_rise is Some
        && tfall_delay is Some && tau_fall is Some {
        Some(InputSourceV::Exp {
            v1: v1.unwrap(),
            v2: v2.unwrap(),
            trise_delay: trise_delay.unwrap(),
            tau_rise: tau_rise.unwrap(),
            tfall_delay: tfall_delay.unwrap(),
            tau_fall: tau_fall.unwrap(),
        })
    } else {
        None
    }
}

/// The SFFM waveform from its parameter list: five required parameters —
/// the carrier frequency takes an optional `Hz` unit; the modulation
/// index and signal frequency are dimensionless slots.
pub open spec fn spec_sffm_params(ps: Seq<Seq<char>>, units: Seq<Seq<char>>)
    -> Option<InputSourceV> {
    let voffset = spec_param(ps, 0, units);
    let vpeak = spec_param(ps, 1, units);
    let fcarrier = spec_param(ps, 2, spec_freq_units());
    let mod_index = spec_param(ps, 3, Seq::empty());
    let fsignal = spec_param(ps, 4, Seq::empty());
    if voffset is Some && vpeak is Some && fcarrier is Some && mod_index is Some
        && fsignal is Some {
        Some(InputSourceV::SFFM {
            voffset: voffset.unwrap(),
            vpeak: vpeak.unwrap(),
            fcarrier: fcarrier.unwrap(),
            mod_index: mod_index.unwrap(),
            fsignal: fsignal.unwrap(),
        })
    } else {
        None
    }
}

/// The waveform a descriptor token denotes; `None` where a required
/// parameter is missing or unresolvable, or a parenthesized group is
/// absent.  Dispatch is by case-sensitive prefix, in priority order.
pub open spec fn spec_input_source(s: Seq<char>, is_voltage: bool) -> Option<InputSourceV> {
    let units = spec_units(is_voltage);
    if starts_with_seq(s, seq!['D', 'C']) {
        spec_dc_source(s, units)
    } else if starts_with_seq(s, seq!['A', 'C']) {
        spec_ac_source(s, units)
    } else if starts_with_seq(s, seq!['P', 'U', 'L', 'S', 'E']) {
        match spec_extract_parens(s) {
            None => None,
            Some(content) => spec_pulse_params(spec_split_ws(content), units),
        }
    } else if starts_with_seq(s, seq!['S', 'I', 'N']) {
        match spec_extract_parens(s) {
            None => None,
            Some(content) => spec_sin_params(spec_split_ws(content), units),
        }
    } else if starts_with_seq(s, seq!['E', 'X', 'P']) {
        match spec_extract_parens(s) {
            None => None,
            Some(content) => spec_exp_params(spec_split_ws(content), units),
        }
    } else if starts_with_seq(s, seq!['P', 'W', 'L']) {
        match spec_extract_parens(s) {
            None => None,
            Some(content) => Some(InputSourceV::PWL {
                points: spec_pwl_points(spec_split_ws(content), spec_pwl_units(is_voltage)),
            }),
        }
    } else if starts_with_seq(s, seq!['S', 'F', 'F', 'M']) {
        match spec_extract_parens(s) {
            None => None,
            Some(content) => spec_sffm_params(spec_split_ws(content), units),
        }
    } else {
        spec_implicit_dc(s, units)
    }
}

fn parse_pulse_params(ps: &Vec<String>, units: &Vec<&str>) -> (r: Result<InputSource, SpiceError>)
    ensures
        match r {
            Ok(v) => spec_pulse_params(ps.deep_view(), units.deep_view()) == Some(v@),
            Err(e) => spec_pulse_params(ps.deep_view(), units.deep_view()) is None
                && e matches SpiceError::MalformedWaveform,
        },
{
    let tu = time_units();
    let v1 = match get_param(ps, 0, units) {
        Some(v) => v,
        None => {
            return Err(SpiceError::MalformedWaveform);
        },
    };
    let v2 = match get_param(ps, 1, units) {
        Some(v) => v,
        None => {
            return Err(SpiceError::MalformedWaveform);
        },
    };
    let tdelay = match get_param(ps, 2, &tu) {
        Some(v) => v,
        None => {
            return Err(SpiceError::MalformedWaveform);
        },
    };
    let trise = match get_param(ps, 3, &tu) {
        Some(v) => v,
        None => {
            return Err(SpiceError::MalformedWaveform);
        },
    };
    let tfall = match get_param(ps, 4, &tu) {
        Some(v) => v,
        None => {
            return Err(SpiceError::MalformedWaveform);
        },
    };
    let width = match get_param(ps, 5, &tu) {
        Some(v) => v,
        None => {
            return Err(SpiceError::MalformedWaveform);
        },
    };
    let period = match get_param(ps, 6, &tu) {
        Some(v) => v,
        None => {
            return Err(SpiceError::MalformedWaveform);
        },
    };
    Ok(InputSource::Pulse { v1, v2, tdelay, trise, tfall, width, period })
}

fn parse_sin_params(ps: &Vec<String>, units: &Vec<&str>) -> (r: Result<InputSource, SpiceError>)
    ensures
        match r {
            Ok(v) => spec_sin_params(ps.deep_view(), units.deep_view()) == Some(v@),
            Err(e) => spec_sin_params(ps.deep_view(), units.deep_view()) is None
                && e matches SpiceError::MalformedWaveform,
        },
{
    let tu = time_units();
    let fu = freq_units();
    let voffset = match get_param(ps, 0, units) {
        Some(v) => v,
        None => {
            return Err(SpiceError::MalformedWaveform);
        },
    };
    let vpeak = match get_param(ps, 1, units) {
        Some(v) => v,
        None => {
            return Err(SpiceError::MalformedWaveform);
        },
    };
    let freq = match get_param(ps, 2, &fu) {
        Some(v) => v,
        None => {
            return Err(SpiceError::MalformedWaveform);
        },
    };
    let tdelay = get_param(ps, 3, &tu);
    let damp_factor = get_param(ps, 4, &tu);
    let phase = get_param(ps, 5, &tu);
    Ok(InputSource::Sin { voffset, vpeak, freq, tdelay, damp_factor, phase })
}

fn parse_exp_params(ps: &Vec<String>, units: &Vec<&str>) -> (r: Result<InputSource, SpiceError>)
    ensures
        match r {
            Ok(v) => spec_exp_params(ps.deep_view(), units.deep_view()) == Some(v@),
            Err(e) => spec_exp_params(ps.deep_view(), units.deep_view()) is None
                && e matches SpiceError::MalformedWaveform,
        },
{
    let tu = time_units();
    let v1 = match get_param(ps, 0, units) {
        Some(v) => v,
        None => {
            return Err(SpiceError::MalformedWaveform);
        },
    };
    let v2 = match get_param(ps, 1, units) {
        Some(v) => v,
        None => {
            return Err(SpiceError::MalformedWaveform);
        },
    };
    let trise_delay = match get_param(ps, 2, &tu) {
        Some(v) => v,
        None => {
            return Err(SpiceError::MalformedWaveform);
        },
    };
    let tau_rise = match get_param(ps, 3, &tu) {
        Some(v) => v,
        None => {
            return Err(SpiceError::MalformedWaveform);
        },
    };
    let tfall_delay = match get_param(ps, 4, &tu) {
        Some(v) => v,
        None => {
            return Err(SpiceError::MalformedWaveform);
        },
    };
    let tau_fall = match get_param(ps, 5, &tu) {
        Some(v) => v,
        None => {
            return Err(SpiceError::MalformedWaveform);
        },
    };
    Ok(InputSource::Exp { v1, v2, trise_delay, tau_rise, tfall_delay, tau_fall })
}

fn parse_sffm_params(ps: &Vec<String>, units: &Vec<&str>) -> (r: Result<InputSource, SpiceError>)
    ensures
        match r {
            Ok(v) => spec_sffm_params(ps.deep_view(), units.deep_view()) == Some(v@),
            Err(e) => spec_sffm_params(ps.deep_view(), units.deep_view()) is None
                && e matches SpiceError::MalformedWaveform,
        },
{
    let fu = freq_units();
    let nu = no_units();
    let voffset = match get_param(ps, 0, units) {
        Some(v) => v,
        None => {
            return Err(SpiceError::MalformedWaveform);
        },
    };
    let vpeak = match get_param(ps, 1, units) {
        Some(v) => v,
        None => {
            return Err(SpiceError::MalformedWaveform);
        },
    };
    let fcarrier = match get_param(ps, 2, &fu) {
        Some(v) => v,
        None => {
            return Err(SpiceError::MalformedWaveform);
        },
    };
    let mod_index = match get_param(ps, 3, &nu) {
        Some(v) => v,
        None => {
            return Err(SpiceError::MalformedWaveform);
        },
    };
    let fsignal = match get_param(ps, 4, &nu) {
        Some(v) => v,
        None => {
            return Err(SpiceError::MalformedWaveform);
        },
    };
    Ok(InputSource::SFFM { voffset, vpeak, fcarrier, mod_index, fsignal })
}

fn parse_pwl_params(ps: &Vec<String>, pu: &Vec<&str>) -> (points: Vec<(Num, Num)>)
    ensures
        points.deep_view() == spec_pwl_points(ps.deep_view(), pu.deep_view()),
{
    let ghost psv = ps.deep_view();
    let ghost uv = pu.deep_view();
    let nlen = ps.len();
    let mut points: Vec<(Num, Num)> = Vec::new();
    let mut t: usize = 0;
    assert(points.deep_view() =~= Seq::new(0nat, |q: int|
        (spec_param(psv, 2 * q, uv).unwrap(), spec_param(psv, 2 * q + 1, uv).unwrap())));
    loop
        invariant
            psv == ps.deep_view(),
            uv == pu.deep_view(),
            psv.len() == nlen,
            2 * t <= nlen,
            forall|k: int| 0 <= k < 2 * t ==> #[trigger] spec_param(psv, k, uv) is Some,
            points.deep_view() == Seq::new(t as nat, |q: int|
                (spec_param(psv, 2 * q, uv).unwrap(),
                 spec_param(psv, 2 * q + 1, uv).unwrap())),
        ensures
            points.deep_view() == spec_pwl_points(psv, uv),
        decreases psv.len() + 2 - 2 * t,
    {
        let ia = 2 * t;
        let a = match get_param(ps, ia, pu) {
            Some(v) => v,
            None => {
                proof {
                    lemma_pwl_end_unique(psv, uv, 0, 2 * t as int);
                    assert(points.deep_view() =~~= spec_pwl_points(psv, uv));
                }
                break;
            },
        };
        assert(ia < psv.len());
        let b = match get_param(ps, ia + 1, pu) {
            Some(v) => v,
            None => {
                proof {
                    lemma_pwl_end_unique(psv, uv, 0, 2 * t as int + 1);
                    assert(points.deep_view() =~~= spec_pwl_points(psv, uv));
                }
                break;
            },
        };
        let ghost va = a@;
        let ghost vb = b@;
        let ghost pre = points.deep_view();
        points.push((a, b));
        t += 1;
        proof {
            assert(points.deep_view() =~~= pre.push((va, vb)));
            assert(pre.push((va, vb)) =~~= Seq::new(t as nat, |q: int|
                (spec_param(psv, 2 * q, uv).unwrap(),
                 spec_param(psv, 2 * q + 1, uv).unwrap())));
            assert(2 * t <= psv.len()) by {
                assert(spec_param(psv, 2 * (t as int) - 1, uv) is Some);
            }
        }
    }
    points
}

/// Decode an independent-source descriptor.  Fails with
/// `MalformedWaveform` exactly where `spec_input_source` is `None`.
pub fn parse_input_source(token: &str, is_voltage: bool) -> (r: Result<InputSource, SpiceError>)
    ensures
        match r {
            Ok(v) => spec_input_source(token@, is_voltage) == Some(v@),
            Err(e) => spec_input_source(token@, is_voltage) is None
                && e matches SpiceError::MalformedWaveform,
        },
{
    proof {
        reveal_strlit("DC");
        reveal_strlit("AC");
        reveal_strlit("PULSE");
        reveal_strlit("SIN");
        reveal_strlit("EXP");
        reveal_strlit("PWL");
        reveal_strlit("SFFM");
        assert("DC"@ =~= seq!['D', 'C']);
        assert("AC"@ =~= seq!['A', 'C']);
        assert("PULSE"@ =~= seq!['P', 'U', 'L', 'S', 'E']);
        assert("SIN"@ =~= seq!['S', 'I', 'N']);
        assert("EXP"@ =~= seq!['E', 'X', 'P']);
        assert("PWL"@ =~= seq!['P', 'W', 'L']);
        assert("SFFM"@ =~= seq!['S', 'F', 'F', 'M']);
    }
    let units = magnitude_units(is_voltage);
    if str_starts_with(token, "DC") {
        let toks = split_whitespace_owned(token);
        match get_param(&toks, 1, &units) {
            Some(v) => Ok(InputSource::DC { voltage: v }),
            None => Err(SpiceError::MalformedWaveform),
        }
    } else if str_starts_with(token, "AC") {
        let toks = split_whitespace_owned(token);
        match get_param(&toks, 1, &units) {
            Some(v) => {
                let phase = match get_param(&toks, 1, &units) {
                    Some(w) => Some(w),
                    None => None,
                };
                Ok(InputSource::AC { mag: v, phase })
            },
            None => Err(SpiceError::MalformedWaveform),
        }
    } else if str_starts_with(token, "PULSE") {
        match extract_parens(token) {
            Some(c) => {
                let ps = split_whitespace_owned(c.as_str());
                parse_pulse_params(&ps, &units)
            },
            None => Err(SpiceError::MalformedWaveform),
        }
    } else if str_starts_with(token, "SIN") {
        match extract_parens(token) {
            Some(c) => {
                let ps = split_whitespace_owned(c.as_str());
                parse_sin_params(&ps, &units)
            },
            None => Err(SpiceError::MalformedWaveform),
        }
    } else if str_starts_with(token, "EXP") {
        match extract_parens(token) {
            Some(c) => {
                let ps = split_whitespace_owned(c.as_str());
                parse_exp_params(&ps, &units)
            },
            None => Err(SpiceError::MalformedWaveform),
        }
    } else if str_starts_with(token, "PWL") {
        match extract_parens(token) {
            Some(c) => {
                let ps = split_whitespace_owned(c.as_str());
                let pu = pwl_units(is_voltage);
                let points = parse_pwl_params(&ps, &pu);
                Ok(InputSource::PWL { points })
            },
            None => Err(SpiceError::MalformedWaveform),
        }
    } else if str_starts_with(token, "SFFM") {
        match extract_parens(token) {
            Some(c) => {
                let ps = split_whitespace_owned(c.as_str());
                parse_sffm_params(&ps, &units)
            },
            None => Err(SpiceError::MalformedWaveform),
        }
    } else {
        let toks = split_whitespace_owned(token);
        match get_param(&toks, 0, &units) {
            Some(v) => Ok(InputSource::DC { voltage: v }),
            None => Err(SpiceError::MalformedWaveform),
        }
    }
}

} // verus!
