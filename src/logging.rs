//! Log lines as values: the library decides what is logged and at which
//! severity; the program around it writes them out.

use vstd::prelude::*;

verus! {

/// Severity of a log line.
#[derive(Clone, Copy, Debug, PartialEq, Eq, Structural)]
pub enum LogLevel {
    Debug,
    Info,
    Warn,
    Error,
}

/// One line to be logged.
#[derive(Clone, Debug)]
pub struct LogLine {
    pub level: LogLevel,
    pub message: String,
}

/// The lines of `v` as severities and texts.
pub open spec fn lines_view(v: Seq<LogLine>) -> Seq<(LogLevel, Seq<char>)> {
    Seq::new(v.len(), |i: int| (v[i].level, v[i].message@))
}

} // verus!
