//! What the command line decides before any checklist is read.

use vstd::prelude::*;

verus! {

/// How much the program reports while it runs.
#[derive(Clone, Copy, Debug, PartialEq, Eq, Structural)]
pub enum Verbosity {
    /// Failures only.
    Error,
    /// Warnings too.
    Warn,
    /// Progress too.
    Info,
    /// Everything.
    Debug,
}

/// The verbosity that `level` repetitions of the verbose flag ask for.
pub open spec fn verbosity_of(level: u8) -> Verbosity {
    if level == 0 {
        Verbosity::Error
    } else if level == 1 {
        Verbosity::Warn
    } else if level == 2 {
        Verbosity::Info
    } else {
        Verbosity::Debug
    }
}

/// The verbosity for a verbose flag given `level` times: each repetition
/// reports more, and from the third on everything is reported.
pub fn verbosity(level: u8) -> (chosen: Verbosity)
    ensures
        chosen == verbosity_of(level),
{
    match level {
        0 => Verbosity::Error,
        1 => Verbosity::Warn,
        2 => Verbosity::Info,
        _ => Verbosity::Debug,
    }
}

} // verus!
