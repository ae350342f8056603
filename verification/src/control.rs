//! The decisions around a run: how much to log, and what to do where the
//! output file is already there.

use vstd::prelude::*;
use crate::text::str_eq;

verus! {

/// The most detailed level of messages that is logged.
#[derive(Clone, Copy, Debug, PartialEq, Eq, Structural)]
pub enum LogLevel {
    Info,
    Debug,
    Trace,
}

/// What to do about the output file.
#[derive(Clone, Copy, Debug, PartialEq, Eq, Structural)]
pub enum OutputAction {
    /// Sort and write the file.
    Write,
    /// Leave the file and end with success.
    Skip,
    /// Ask whether to overwrite the file.
    Ask,
}

/// The level for a number of verbosity flags: none gives `Info`, one gives
/// `Debug`, two or more give `Trace`.
pub open spec fn level_of(verbosity: u64) -> LogLevel {
    if verbosity == 0 {
        LogLevel::Info
    } else if verbosity == 1 {
        LogLevel::Debug
    } else {
        LogLevel::Trace
    }
}

/// The log level for a number of verbosity flags.
pub fn log_level(verbosity: u64) -> (level: LogLevel)
    ensures
        level == level_of(verbosity),
        verbosity == 0 <==> level == LogLevel::Info,
        verbosity == 1 <==> level == LogLevel::Debug,
        verbosity >= 2 <==> level == LogLevel::Trace,
{
    match verbosity {
        0 => LogLevel::Info,
        1 => LogLevel::Debug,
        _ => LogLevel::Trace,
    }
}

/// What to do about the output file: write it where it is not there yet or
/// may be overwritten, skip it where existing files are to be kept, else
/// ask.
pub fn output_action(present: bool, overwrite: bool, skip_existing: bool) -> (action: OutputAction)
    ensures
        action == (if !present || overwrite {
            OutputAction::Write
        } else if skip_existing {
            OutputAction::Skip
        } else {
            OutputAction::Ask
        }),
{
    if !present || overwrite {
        OutputAction::Write
    } else if skip_existing {
        OutputAction::Skip
    } else {
        OutputAction::Ask
    }
}

/// Whether an answer allows overwriting: only the line `y`, with its line
/// end and nothing else.
pub fn confirms_overwrite(answer: &str) -> (yes: bool)
    ensures
        yes == (answer@ == "y\n"@),
{
    str_eq(answer, "y\n")
}

} // verus!
