//! A DC operating-point analyzer for SPICE-style netlists.
//!
//! The library parses a line-oriented netlist into typed circuit elements,
//! assigns dense indices to the circuit's nodes, and assembles the Modified
//! Nodal Analysis (MNA) system for the DC operating point.  Numeric literals
//! are kept exact: a value is a sign, a sequence of decimal digits and a
//! power-of-ten exponent, so every step of the pipeline is stated and proved
//! over plain integers and sequences.  Solving the assembled system is left
//! to the (unverified) driver, which owns all floating-point arithmetic.

use vstd::prelude::*;

pub mod chars;
pub mod num;
pub mod parse_util;
pub mod inputsource;
pub mod elements;
pub mod commands;
pub mod netlist;
pub mod matrix;

verus! {

/// The ways a run can fail.  Parse errors are fatal to the whole run; a
/// singular system is a normal, expected outcome of the solve step and is
/// reported distinctly by the driver.
#[derive(Debug)]
pub enum SpiceError {
    /// The value resolver could not parse the numeric remainder of a token.
    MalformedNumber,
    /// A required waveform parameter is missing or unparseable, or a
    /// parenthesized parameter group is absent.
    MalformedWaveform,
    /// An element or command line has too few tokens, or a value in it
    /// does not resolve.
    SyntaxError { line: String },
    /// An element line starts with an unrecognized character.
    UnknownElementType { line: String },
    /// A command line starts with an unrecognized keyword.
    UnknownCommand { line: String },
    /// The assembled matrix admits no unique solution.
    SingularSystem,
}

/// Mathematical image of a `SpiceError`.
pub enum ErrV {
    MalformedNumber,
    MalformedWaveform,
    SyntaxError { line: Seq<char> },
    UnknownElementType { line: Seq<char> },
    UnknownCommand { line: Seq<char> },
    SingularSystem,
}

impl View for SpiceError {
    type V = ErrV;

    open spec fn view(&self) -> ErrV {
        match self {
            SpiceError::MalformedNumber => ErrV::MalformedNumber,
            SpiceError::MalformedWaveform => ErrV::MalformedWaveform,
            SpiceError::SyntaxError { line } => ErrV::SyntaxError { line: line@ },
            SpiceError::UnknownElementType { line } => ErrV::UnknownElementType { line: line@ },
            SpiceError::UnknownCommand { line } => ErrV::UnknownCommand { line: line@ },
            SpiceError::SingularSystem => ErrV::SingularSystem,
        }
    }
}

impl DeepView for SpiceError {
    type V = ErrV;

    open spec fn deep_view(&self) -> ErrV {
        self.view()
    }
}

} // verus!
