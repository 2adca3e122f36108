//! The netlist assembler.
//!
//! Input lines are classified one by one, in order: a blank line (after
//! trimming) or a line whose first non-whitespace character is `*` is
//! ignored; a line starting with `.` is a command; anything else is an
//! element line.  Assembly is strictly sequential and fails fast — the
//! first bad line aborts the whole run with its error, and no partial
//! netlist is returned.

use vstd::prelude::*;
use vstd::string::*;
use crate::chars::{spec_trim, trim_owned};
use crate::elements::{Element, ElementV, parse_element, spec_parse_element};
use crate::commands::{Command, CommandV, parse_command, spec_parse_command};
use crate::{SpiceError, ErrV};

verus! {

/// A parsed netlist: the element list and the command list, each in input
/// order.
#[derive(Debug)]
pub struct Netlist {
    pub elements: Vec<Element>,
    pub commands: Vec<Command>,
}

/// Assembly from line `i` on, with the elements and commands accumulated
/// so far.
pub open spec fn spec_assemble(
    lines: Seq<Seq<char>>,
    i: int,
    els: Seq<ElementV>,
    cmds: Seq<CommandV>,
) -> Result<(Seq<ElementV>, Seq<CommandV>), ErrV>
    decreases lines.len() - i,
    when 0 <= i
{
    if i >= lines.len() {
        Ok((els, cmds))
    } else {
        let t = spec_trim(lines[i]);
        if t.len() == 0 || t[0] == '*' {
            spec_assemble(lines, i + 1, els, cmds)
        } else if t[0] == '.' {
            match spec_parse_command(t) {
                Ok(c) => spec_assemble(lines, i + 1, els, cmds.push(c)),
                Err(e) => Err(e),
            }
        } else {
            match spec_parse_element(t) {
                Ok(el) => spec_assemble(lines, i + 1, els.push(el), cmds),
                Err(e) => Err(e),
            }
        }
    }
}

/// The netlist a sequence of input lines denotes, or the first error.
pub open spec fn spec_parse_netlist(lines: Seq<Seq<char>>)
    -> Result<(Seq<ElementV>, Seq<CommandV>), ErrV> {
    spec_assemble(lines, 0, Seq::empty(), Seq::empty())
}

/// Assemble a netlist from its input lines: elements and commands in
/// order, or the first line's error.
pub fn parse_netlist(lines: &Vec<String>) -> (r: Result<Netlist, SpiceError>)
    ensures
        match r {
            Ok(nl) => spec_parse_netlist(lines.deep_view())
                == Ok::<(Seq<ElementV>, Seq<CommandV>), ErrV>(
                    (nl.elements.deep_view(), nl.commands.deep_view())),
            Err(e) => spec_parse_netlist(lines.deep_view())
                == Err::<(Seq<ElementV>, Seq<CommandV>), ErrV>(e@),
        },
{
    let ghost lv = lines.deep_view();
    let mut elements: Vec<Element> = Vec::new();
    let mut commands: Vec<Command> = Vec::new();
    let mut i: usize = 0;
    assert(elements.deep_view() =~~= Seq::<ElementV>::empty());
    assert(commands.deep_view() =~~= Seq::<CommandV>::empty());
    while i < lines.len()
        invariant
            0 <= i <= lines@.len(),
            lv == lines.deep_view(),
            lv.len() == lines@.len(),
            spec_parse_netlist(lv) == spec_assemble(lv, i as int, elements.deep_view(),
                commands.deep_view()),
        decreases lines@.len() - i,
    {
        assert(lv[i as int] == lines@[i as int]@);
        let trimmed = trim_owned(lines[i].as_str());
        let tlen = trimmed.as_str().unicode_len();
        if tlen == 0 || trimmed.as_str().get_char(0) == '*' {
            i += 1;
        } else if trimmed.as_str().get_char(0) == '.' {
            match parse_command(trimmed.as_str()) {
                Ok(c) => {
                    let ghost pre = commands.deep_view();
                    let ghost cv = c@;
                    commands.push(c);
                    proof {
                        assert(commands.deep_view() =~~= pre.push(cv));
                    }
                    i += 1;
                },
                Err(e) => {
                    return Err(e);
                },
            }
        } else {
            match parse_element(trimmed.as_str()) {
                Ok(el) => {
                    let ghost pre = elements.deep_view();
                    let ghost ev = el@;
                    elements.push(el);
                    proof {
                        assert(elements.deep_view() =~~= pre.push(ev));
                    }
                    i += 1;
                },
                Err(e) => {
                    return Err(e);
                },
            }
        }
    }
    Ok(Netlist { elements, commands })
}

} // verus!
