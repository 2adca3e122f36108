//! The element grammar: one typed circuit component per netlist line.
//!
//! A line is `name node1 node2 ...`, dispatched on its first character —
//! `R`, `C`, `L` or `V`.  The fourth token is first tried as the element's
//! primary value (with the element's own `name=` prefix allowed); if that
//! fails it is read as a model name and the fifth token carries the value
//! instead (0 when absent).  Capacitors and inductors may carry one more
//! `IC=`-prefixed initial condition; a voltage source hands everything
//! after the third token, re-joined with single spaces, to the waveform
//! decoder.

use vstd::prelude::*;
use vstd::string::*;
use crate::chars::{spec_split_ws, split_whitespace_owned};
use crate::num::{Num, NumV, zero_num, zero_numv};
use crate::parse_util::{parse_named_value, spec_resolve_named};
use crate::inputsource::{
    InputSource, InputSourceV, parse_input_source, spec_input_source,
};
use crate::{SpiceError, ErrV};

verus! {

/// A circuit element.
#[derive(Debug)]
pub enum Element {
    Capacitor {
        name: String,
        node1: String,
        node2: String,
        model: Option<String>,
        capacitance: Num,
        initial: Option<Num>,
    },
    Inductor {
        name: String,
        node1: String,
        node2: String,
        model: Option<String>,
        inductance: Num,
        initial: Option<Num>,
    },
    Resistor {
        name: String,
        node1: String,
        node2: String,
        model: Option<String>,
        resistance: Num,
    },
    VoltageSource { name: String, node1: String, node2: String, vtype: InputSource },
}

/// Mathematical image of an `Element`.
pub enum ElementV {
    Capacitor {
        name: Seq<char>,
        node1: Seq<char>,
        node2: Seq<char>,
        model: Option<Seq<char>>,
        capacitance: NumV,
        initial: Option<NumV>,
    },
    Inductor {
        name: Seq<char>,
        node1: Seq<char>,
        node2: Seq<char>,
        model: Option<Seq<char>>,
        inductance: NumV,
        initial: Option<NumV>,
    },
    Resistor {
        name: Seq<char>,
        node1: Seq<char>,
        node2: Seq<char>,
        model: Option<Seq<char>>,
        resistance: NumV,
    },
    VoltageSource { name: Seq<char>, node1: Seq<char>, node2: Seq<char>, vtype: InputSourceV },
}

impl View for Element {
    type V = ElementV;

    open spec fn view(&self) -> ElementV {
        match self {
            Element::Capacitor { name, node1, node2, model, capacitance, initial } =>
                ElementV::Capacitor {
                    name: name@,
                    node1: node1@,
                    node2: node2@,
                    model: model.deep_view(),
                    capacitance: capacitance@,
                    initial: initial.deep_view(),
                },
            Element::Inductor { name, node1, node2, model, inductance, initial } =>
                ElementV::Inductor {
                    name: name@,
                    node1: node1@,
                    node2: node2@,
                    model: model.deep_view(),
                    inductance: inductance@,
                    initial: initial.deep_view(),
                },
            Element::Resistor { name, node1, node2, model, resistance } => ElementV::Resistor {
                name: name@,
                node1: node1@,
                node2: node2@,
                model: model.deep_view(),
                resistance: resistance@,
            },
            Element::VoltageSource { name, node1, node2, vtype } => ElementV::VoltageSource {
                name: name@,
                node1: node1@,
                node2: node2@,
                vtype: vtype@,
            },
        }
    }
}

impl DeepView for Element {
    type V = ElementV;

    open spec fn deep_view(&self) -> ElementV {
        self.view()
    }
}

/// The two nodes an element connects.
pub open spec fn nodes_of(e: ElementV) -> (Seq<char>, Seq<char>) {
    match e {
        ElementV::Capacitor { node1, node2, .. } => (node1, node2),
        ElementV::Inductor { node1, node2, .. } => (node1, node2),
        ElementV::Resistor { node1, node2, .. } => (node1, node2),
        ElementV::VoltageSource { node1, node2, .. } => (node1, node2),
    }
}

/// The tokens from `start` on, re-joined with single spaces.
pub open spec fn join_spaces(toks: Seq<Seq<char>>) -> Seq<char>
    decreases toks.len(),
{
    if toks.len() == 0 {
        Seq::empty()
    } else if toks.len() == 1 {
        toks[0]
    } else {
        join_spaces(toks.drop_last()) + seq![' '] + toks.last()
    }
}

proof fn lemma_join_push(xs: Seq<Seq<char>>, x: Seq<char>)
    ensures
        join_spaces(xs.push(x)) == if xs.len() == 0 {
            x
        } else {
            join_spaces(xs) + seq![' '] + x
        },
{
    assert(xs.push(x).drop_last() =~~= xs);
    assert(xs.push(x).last() == x);
    if xs.len() == 0 {
        assert(join_spaces(xs.push(x)) =~= x);
    }
}

fn join_tail(toks: &Vec<String>, start: usize) -> (r: String)
    requires
        start <= toks@.len(),
    ensures
        r@ == join_spaces(toks.deep_view().skip(start as int)),
{
    let ghost tail = toks.deep_view().skip(start as int);
    let mut r = String::new();
    let mut k = start;
    assert(tail.take(0) =~~= Seq::<Seq<char>>::empty());
    while k < toks.len()
        invariant
            start <= k <= toks@.len(),
            tail == toks.deep_view().skip(start as int),
            r@ == join_spaces(tail.take(k - start)),
        decreases toks@.len() - k,
    {
        proof {
            assert(tail.take(k - start + 1) =~~= tail.take(k - start).push(tail[k - start]));
            lemma_join_push(tail.take(k - start), tail[k - start]);
            assert(tail[k - start] == toks.deep_view()[k as int]);
            reveal_strlit(" ");
            assert(" "@ =~= seq![' ']);
        }
        if k > start {
            r.append(" ");
        }
        r.append(toks[k].as_str());
        k += 1;
    }
    assert(tail.take(toks@.len() - start) =~~= tail);
    r
}

/// The resistor grammar.
pub open spec fn spec_parse_resistor(line: Seq<char>) -> Result<ElementV, ErrV> {
    let toks = spec_split_ws(line);
    if toks.len() < 4 {
        Err(ErrV::SyntaxError { line })
    } else {
        match spec_resolve_named(toks[3], seq!['R'], Seq::empty()) {
            Some(v) => Ok(ElementV::Resistor {
                name: toks[0],
                node1: toks[1],
                node2: toks[2],
                model: None,
                resistance: v,
            }),
            None => {
                if toks.len() >= 5 {
                    match spec_resolve_named(toks[4], seq!['R'], Seq::empty()) {
                        Some(v) => Ok(ElementV::Resistor {
                            name: toks[0],
                            node1: toks[1],
                            node2: toks[2],
                            model: Some(toks[3]),
                            resistance: v,
                        }),
                        None => Err(ErrV::SyntaxError { line }),
                    }
                } else {
                    Ok(ElementV::Resistor {
                        name: toks[0],
                        node1: toks[1],
                        node2: toks[2],
                        model: Some(toks[3]),
                        resistance: zero_numv(),
                    })
                }
            },
        }
    }
}

fn no_units() -> (r: Vec<&'static str>)
    ensures
        r.deep_view() == Seq::<Seq<char>>::empty(),
{
    let v: Vec<&'static str> = Vec::new();
    assert(v.deep_view() =~~= Seq::<Seq<char>>::empty());
    v
}

fn farad_units() -> (r: Vec<&'static str>)
    ensures
        r.deep_view() == seq![seq!['F']],
{
    let mut v: Vec<&'static str> = Vec::new();
    v.push("F");
    proof {
        reveal_strlit("F");
        assert(v.deep_view() =~~= seq![seq!['F']]);
    }
    v
}

fn henry_units() -> (r: Vec<&'static str>)
    ensures
        r.deep_view() == seq![seq!['H']],
{
    let mut v: Vec<&'static str> = Vec::new();
    v.push("H");
    proof {
        reveal_strlit("H");
        assert(v.deep_view() =~~= seq![seq!['H']]);
    }
    v
}

fn volt_units() -> (r: Vec<&'static str>)
    ensures
        r.deep_view() == seq![seq!['V'], seq!['v']],
{
    let mut v: Vec<&'static str> = Vec::new();
    v.push("V");
    v.push("v");
    proof {
        reveal_strlit("V");
        reveal_strlit("v");
        assert(v.deep_view() =~~= seq![seq!['V'], seq!['v']]);
    }
    v
}

fn amp_units() -> (r: Vec<&'static str>)
    ensures
        r.deep_view() == seq![seq!['A'], seq!['a']],
{
    let mut v: Vec<&'static str> = Vec::new();
    v.push("A");
    v.push("a");
    proof {
        reveal_strlit("A");
        reveal_strlit("a");
        assert(v.deep_view() =~~= seq![seq!['A'], seq!['a']]);
    }
    v
}

/// Parse a resistor line: `R<name> <node1> <node2> [<model>] <value>`.
/// Fails with `SyntaxError` exactly when there are fewer than four tokens
/// or a present value token does not resolve.
pub fn parse_resistor(line: &str) -> (r: Result<Element, SpiceError>)
    ensures
        match r {
            Ok(v) => spec_parse_resistor(line@) == Ok::<ElementV, ErrV>(v@),
            Err(e) => spec_parse_resistor(line@) == Err::<ElementV, ErrV>(e@),
        },
{
    proof {
        reveal_strlit("R");
        assert("R"@ =~= seq!['R']);
    }
    let toks = split_whitespace_owned(line);
    if toks.len() < 4 {
        return Err(SpiceError::SyntaxError { line: line.to_owned() });
    }
    let nu = no_units();
    let name = toks[0].clone();
    let node1 = toks[1].clone();
    let node2 = toks[2].clone();
    assert(toks.deep_view()[3] == toks@[3]@);
    match parse_named_value(toks[3].as_str(), "R", nu.as_slice()) {
        Ok(v) => Ok(Element::Resistor { name, node1, node2, model: None, resistance: v }),
        Err(_) => {
            if toks.len() >= 5 {
                assert(toks.deep_view()[4] == toks@[4]@);
                match parse_named_value(toks[4].as_str(), "R", nu.as_slice()) {
                    Ok(v) => Ok(Element::Resistor {
                        name,
                        node1,
                        node2,
                        model: Some(toks[3].clone()),
                        resistance: v,
                    }),
                    Err(_) => Err(SpiceError::SyntaxError { line: line.to_owned() }),
                }
            } else {
                Ok(Element::Resistor {
                    name,
                    node1,
                    node2,
                    model: Some(toks[3].clone()),
                    resistance: zero_num(),
                })
            }
        },
    }
}

/// The capacitor grammar.  A capacitor line must begin with `C`; the value
/// takes an optional `F` unit and the initial condition an optional
/// `V`/`v` unit.
pub open spec fn spec_parse_capacitor(line: Seq<char>) -> Result<ElementV, ErrV> {
    if !(line.len() >= 1 && line[0] == 'C') {
        Err(ErrV::SyntaxError { line })
    } else {
        let toks = spec_split_ws(line);
        if toks.len() < 4 {
            Err(ErrV::SyntaxError { line })
        } else {
            match spec_resolve_named(toks[3], seq!['C'], seq![seq!['F']]) {
                Some(v) => spec_cap_initial(line, toks, None, v, 4),
                None => {
                    if toks.len() >= 5 {
                        match spec_resolve_named(toks[4], seq!['C'], seq![seq!['F']]) {
                            Some(v) => spec_cap_initial(line, toks, Some(toks[3]), v, 5),
                            None => Err(ErrV::SyntaxError { line }),
                        }
                    } else {
                        spec_cap_initial(line, toks, Some(toks[3]), zero_numv(), 5)
                    }
                },
            }
        }
    }
}

/// The optional `IC=` initial condition at token `idx` of a capacitor
/// line.
pub open spec fn spec_cap_initial(
    line: Seq<char>,
    toks: Seq<Seq<char>>,
    model: Option<Seq<char>>,
    cap: NumV,
    idx: int,
) -> Result<ElementV, ErrV> {
    if toks.len() > idx {
        match spec_resolve_named(toks[idx], seq!['I', 'C'], seq![seq!['V'], seq!['v']]) {
            Some(ic) => Ok(ElementV::Capacitor {
                name: toks[0],
                node1: toks[1],
                node2: toks[2],
                model,
                capacitance: cap,
                initial: Some(ic),
            }),
            None => Err(ErrV::SyntaxError { line }),
        }
    } else {
        Ok(ElementV::Capacitor {
            name: toks[0],
            node1: toks[1],
            node2: toks[2],
            model,
            capacitance: cap,
            initial: None,
        })
    }
}

/// Parse a capacitor line:
/// `C<name> <node1> <node2> [<model>] <value>[F] [IC=<value>[V|v]]`.
pub fn parse_capacitor(line: &str) -> (r: Result<Element, SpiceError>)
    ensures
        match r {
            Ok(v) => spec_parse_capacitor(line@) == Ok::<ElementV, ErrV>(v@),
            Err(e) => spec_parse_capacitor(line@) == Err::<ElementV, ErrV>(e@),
        },
{
    proof {
        reveal_strlit("C");
        reveal_strlit("IC");
        assert("C"@ =~= seq!['C']);
        assert("IC"@ =~= seq!['I', 'C']);
    }
    if !(line.unicode_len() >= 1 && line.get_char(0) == 'C') {
        return Err(SpiceError::SyntaxError { line: line.to_owned() });
    }
    let toks = split_whitespace_owned(line);
    if toks.len() < 4 {
        return Err(SpiceError::SyntaxError { line: line.to_owned() });
    }
    let fu = farad_units();
    assert(toks.deep_view()[3] == toks@[3]@);
    let (model, cap, idx) = match parse_named_value(toks[3].as_str(), "C", fu.as_slice()) {
        Ok(v) => (None, v, 4usize),
        Err(_) => {
            if toks.len() >= 5 {
                assert(toks.deep_view()[4] == toks@[4]@);
                match parse_named_value(toks[4].as_str(), "C", fu.as_slice()) {
                    Ok(v) => (Some(toks[3].clone()), v, 5usize),
                    Err(_) => {
                        return Err(SpiceError::SyntaxError { line: line.to_owned() });
                    },
                }
            } else {
                (Some(toks[3].clone()), zero_num(), 5usize)
            }
        },
    };
    let name = toks[0].clone();
    let node1 = toks[1].clone();
    let node2 = toks[2].clone();
    if toks.len() > idx {
        let vu = volt_units();
        assert(toks.deep_view()[idx as int] == toks@[idx as int]@);
        match parse_named_value(toks[idx].as_str(), "IC", vu.as_slice()) {
            Ok(ic) => Ok(Element::Capacitor {
                name,
                node1,
                node2,
                model,
                capacitance: cap,
                initial: Some(ic),
            }),
            Err(_) => Err(SpiceError::SyntaxError { line: line.to_owned() }),
        }
    } else {
        Ok(Element::Capacitor { name, node1, node2, model, capacitance: cap, initial: None })
    }
}

/// The inductor grammar: like the capacitor's, without the leading-letter
/// check; the value takes an optional `H` unit and the initial condition
/// an optional `A`/`a` unit.
pub open spec fn spec_parse_inductor(line: Seq<char>) -> Result<ElementV, ErrV> {
    let toks = spec_split_ws(line);
    if toks.len() < 4 {
        Err(ErrV::SyntaxError { line })
    } else {
        match spec_resolve_named(toks[3], seq!['L'], seq![seq!['H']]) {
            Some(v) => spec_ind_initial(line, toks, None, v, 4),
            None => {
                if toks.len() >= 5 {
                    match spec_resolve_named(toks[4], seq!['L'], seq![seq!['H']]) {
                        Some(v) => spec_ind_initial(line, toks, Some(toks[3]), v, 5),
                        None => Err(ErrV::SyntaxError { line }),
                    }
                } else {
                    spec_ind_initial(line, toks, Some(toks[3]), zero_numv(), 5)
                }
            },
        }
    }
}

/// The optional `IC=` initial condition at token `idx` of an inductor
/// line.
pub open spec fn spec_ind_initial(
    line: Seq<char>,
    toks: Seq<Seq<char>>,
    model: Option<Seq<char>>,
    ind: NumV,
    idx: int,
) -> Result<ElementV, ErrV> {
    if toks.len() > idx {
        match spec_resolve_named(toks[idx], seq!['I', 'C'], seq![seq!['A'], seq!['a']]) {
            Some(ic) => Ok(ElementV::Inductor {
                name: toks[0],
                node1: toks[1],
                node2: toks[2],
                model,
                inductance: ind,
                initial: Some(ic),
            }),
            None => Err(ErrV::SyntaxError { line }),
        }
    } else {
        Ok(ElementV::Inductor {
            name: toks[0],
            node1: toks[1],
            node2: toks[2],
            model,
            inductance: ind,
            initial: None,
        })
    }
}

/// Parse an inductor line:
/// `L<name> <node1> <node2> [<model>] <value>[H] [IC=<value>[A|a]]`.
pub fn parse_inductor(line: &str) -> (r: Result<Element, SpiceError>)
    ensures
        match r {
            Ok(v) => spec_parse_inductor(line@) == Ok::<ElementV, ErrV>(v@),
            Err(e) => spec_parse_inductor(line@) == Err::<ElementV, ErrV>(e@),
        },
{
    proof {
        reveal_strlit("L");
        reveal_strlit("IC");
        assert("L"@ =~= seq!['L']);
        assert("IC"@ =~= seq!['I', 'C']);
    }
    let toks = split_whitespace_owned(line);
    if toks.len() < 4 {
        return Err(SpiceError::SyntaxError { line: line.to_owned() });
    }
    let hu = henry_units();
    assert(toks.deep_view()[3] == toks@[3]@);
    let (model, ind, idx) = match parse_named_value(toks[3].as_str(), "L", hu.as_slice()) {
        Ok(v) => (None, v, 4usize),
        Err(_) => {
            if toks.len() >= 5 {
                assert(toks.deep_view()[4] == toks@[4]@);
                match parse_named_value(toks[4].as_str(), "L", hu.as_slice()) {
                    Ok(v) => (Some(toks[3].clone()), v, 5usize),
                    Err(_) => {
                        return Err(SpiceError::SyntaxError { line: line.to_owned() });
                    },
                }
            } else {
                (Some(toks[3].clone()), zero_num(), 5usize)
            }
        },
    };
    let name = toks[0].clone();
    let node1 = toks[1].clone();
    let node2 = toks[2].clone();
    if toks.len() > idx {
        let au = amp_units();
        assert(toks.deep_view()[idx as int] == toks@[idx as int]@);
        match parse_named_value(toks[idx].as_str(), "IC", au.as_slice()) {
            Ok(ic) => Ok(Element::Inductor {
                name,
                node1,
                node2,
                model,
                inductance: ind,
                initial: Some(ic),
            }),
            Err(_) => Err(SpiceError::SyntaxError { line: line.to_owned() }),
        }
    } else {
        Ok(Element::Inductor { name, node1, node2, model, inductance: ind, initial: None })
    }
}

/// The voltage-source grammar: the tokens after the third, re-joined with
/// single spaces, form the waveform descriptor.
pub open spec fn spec_parse_voltage_source(line: Seq<char>) -> Result<ElementV, ErrV> {
    let toks = spec_split_ws(line);
    if toks.len() < 4 {
        Err(ErrV::SyntaxError { line })
    } else {
        match spec_input_source(join_spaces(toks.skip(3)), true) {
            Some(w) => Ok(ElementV::VoltageSource {
                name: toks[0],
                node1: toks[1],
                node2: toks[2],
                vtype: w,
            }),
            None => Err(ErrV::MalformedWaveform),
        }
    }
}

/// Parse a voltage-source line:
/// `V<name> <node1> <node2> <waveform-descriptor>`.
pub fn parse_voltage_source(line: &str) -> (r: Result<Element, SpiceError>)
    ensures
        match r {
            Ok(v) => spec_parse_voltage_source(line@) == Ok::<ElementV, ErrV>(v@),
            Err(e) => spec_parse_voltage_source(line@) == Err::<ElementV, ErrV>(e@),
        },
{
    let toks = split_whitespace_owned(line);
    if toks.len() < 4 {
        return Err(SpiceError::SyntaxError { line: line.to_owned() });
    }
    let descriptor = join_tail(&toks, 3);
    let name = toks[0].clone();
    let node1 = toks[1].clone();
    let node2 = toks[2].clone();
    match parse_input_source(descriptor.as_str(), true) {
        Ok(w) => Ok(Element::VoltageSource { name, node1, node2, vtype: w }),
        Err(_) => Err(SpiceError::MalformedWaveform),
    }
}

/// The element grammar: dispatch on the line's first character.
pub open spec fn spec_parse_element(line: Seq<char>) -> Result<ElementV, ErrV> {
    if line.len() == 0 {
        Err(ErrV::UnknownElementType { line })
    } else if line[0] == 'R' {
        spec_parse_resistor(line)
    } else if line[0] == 'C' {
        spec_parse_capacitor(line)
    } else if line[0] == 'L' {
        spec_parse_inductor(line)
    } else if line[0] == 'V' {
        spec_parse_voltage_source(line)
    } else {
        Err(ErrV::UnknownElementType { line })
    }
}

/// Parse one element line, dispatched on its leading character; any other
/// leading character fails with `UnknownElementType`.
pub fn parse_element(line: &str) -> (r: Result<Element, SpiceError>)
    ensures
        match r {
            Ok(v) => spec_parse_element(line@) == Ok::<ElementV, ErrV>(v@),
            Err(e) => spec_parse_element(line@) == Err::<ElementV, ErrV>(e@),
        },
{
    if line.unicode_len() == 0 {
        return Err(SpiceError::UnknownElementType { line: line.to_owned() });
    }
    let c0 = line.get_char(0);
    if c0 == 'R' {
        parse_resistor(line)
    } else if c0 == 'C' {
        parse_capacitor(line)
    } else if c0 == 'L' {
        parse_inductor(line)
    } else if c0 == 'V' {
        parse_voltage_source(line)
    } else {
        Err(SpiceError::UnknownElementType { line: line.to_owned() })
    }
}

} // verus!
