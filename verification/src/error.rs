//! The ways in which compiling or running a program fails.

use vstd::prelude::*;

verus! {

/// A failure of the compiler or of a run. None of them ends the host process.
#[derive(Clone, Copy, Debug, PartialEq, Eq, Structural)]
pub enum Error {
    /// The source is rejected before anything runs: a bracket has no partner,
    /// or the strict gate met a character that is not a symbol.
    Syntax,
    /// The pointer was asked to leave the tape.
    TapeBounds,
    /// The input stream failed, which is not the same as running dry.
    Stream,
    /// The step budget ran out before the program halted.
    StepLimit,
}

} // verus!
