//! Analysis commands.
//!
//! A command line begins with `.`; the only recognized keyword is `.DC`,
//! whose grammar is `.DC <source-name> <start> <stop> <step>` — exactly
//! five tokens, the three numeric fields resolved without units.  Commands
//! are collected by the assembler but not consumed by the operating-point
//! solve path.

use vstd::prelude::*;
use vstd::string::*;
use crate::chars::{spec_split_ws, split_whitespace_owned, str_eq};
use crate::num::{Num, NumV};
use crate::parse_util::{parse_value, spec_resolve};
use crate::{SpiceError, ErrV};

verus! {

/// An analysis command.
#[derive(Debug)]
pub enum Command {
    DC { source: String, start: Num, stop: Num, step: Num },
}

/// Mathematical image of a `Command`.
pub enum CommandV {
    DC { source: Seq<char>, start: NumV, stop: NumV, step: NumV },
}

impl View for Command {
    type V = CommandV;

    open spec fn view(&self) -> CommandV {
        match self {
            Command::DC { source, start, stop, step } => CommandV::DC {
                source: source@,
                start: start@,
                stop: stop@,
                step: step@,
            },
        }
    }
}

impl DeepView for Command {
    type V = CommandV;

    open spec fn deep_view(&self) -> CommandV {
        self.view()
    }
}

/// The `.DC` grammar: exactly five tokens; the last three resolve as bare
/// values.
pub open spec fn spec_parse_dc_command(line: Seq<char>) -> Result<CommandV, ErrV> {
    let toks = spec_split_ws(line);
    if toks.len() != 5 {
        Err(ErrV::SyntaxError { line })
    } else {
        let start = spec_resolve(toks[2]);
        let stop = spec_resolve(toks[3]);
        let step = spec_resolve(toks[4]);
        if start is Some && stop is Some && step is Some {
            Ok(CommandV::DC {
                source: toks[1],
                start: start.unwrap(),
                stop: stop.unwrap(),
                step: step.unwrap(),
            })
        } else {
            Err(ErrV::MalformedNumber)
        }
    }
}

/// Parse a `.DC` command line.  Fails with `SyntaxError` on a wrong token
/// count and with `MalformedNumber` when a numeric field does not resolve.
pub fn parse_dc_command(line: &str) -> (r: Result<Command, SpiceError>)
    ensures
        match r {
            Ok(c) => spec_parse_dc_command(line@) == Ok::<CommandV, ErrV>(c@),
            Err(e) => spec_parse_dc_command(line@) == Err::<CommandV, ErrV>(e@),
        },
{
    let toks = split_whitespace_owned(line);
    if toks.len() != 5 {
        return Err(SpiceError::SyntaxError { line: line.to_owned() });
    }
    assert(toks.deep_view()[2] == toks@[2]@);
    assert(toks.deep_view()[3] == toks@[3]@);
    assert(toks.deep_view()[4] == toks@[4]@);
    let start = match parse_value(toks[2].as_str()) {
        Ok(v) => v,
        Err(_) => {
            return Err(SpiceError::MalformedNumber);
        },
    };
    let stop = match parse_value(toks[3].as_str()) {
        Ok(v) => v,
        Err(_) => {
            return Err(SpiceError::MalformedNumber);
        },
    };
    let step = match parse_value(toks[4].as_str()) {
        Ok(v) => v,
        Err(_) => {
            return Err(SpiceError::MalformedNumber);
        },
    };
    let source = toks[1].clone();
    Ok(Command::DC { source, start, stop, step })
}

/// The command grammar: dispatch on the first token; only `.DC` is
/// recognized.
pub open spec fn spec_parse_command(line: Seq<char>) -> Result<CommandV, ErrV> {
    let toks = spec_split_ws(line);
    if toks.len() == 0 {
        Err(ErrV::UnknownCommand { line })
    } else if toks[0] == seq!['.', 'D', 'C'] {
        spec_parse_dc_command(line)
    } else {
        Err(ErrV::UnknownCommand { line })
    }
}

/// Parse a command line; an unrecognized leading keyword fails with
/// `UnknownCommand`.
pub fn parse_command(line: &str) -> (r: Result<Command, SpiceError>)
    ensures
        match r {
            Ok(c) => spec_parse_command(line@) == Ok::<CommandV, ErrV>(c@),
            Err(e) => spec_parse_command(line@) == Err::<CommandV, ErrV>(e@),
        },
{
    proof {
        reveal_strlit(".DC");
        assert(".DC"@ =~= seq!['.', 'D', 'C']);
    }
    let toks = split_whitespace_owned(line);
    if toks.len() == 0 {
        return Err(SpiceError::UnknownCommand { line: line.to_owned() });
    }
    assert(toks.deep_view()[0] == toks@[0]@);
    if str_eq(toks[0].as_str(), ".DC") {
        parse_dc_command(line)
    } else {
        Err(SpiceError::UnknownCommand { line: line.to_owned() })
    }
}

} // verus!
