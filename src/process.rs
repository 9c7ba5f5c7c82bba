//! The protocol that watches one run of the issuance tool: it reads what the
//! program reports from the subprocess (output and error lines, the ends of
//! both streams, the exit status), says what to log, answers the terms of
//! service prompt, and classifies the outcome.

use vstd::prelude::*;
use crate::logging::{LogLevel, LogLine, lines_view};
use crate::text::{contains, contains_str};

verus! {

/// What the program observed of the subprocess.
#[derive(Clone, Debug)]
pub enum ProcessEvent {
    /// A line on standard output.
    StdoutLine(String),
    /// Standard output reached its end.
    StdoutClosed,
    /// Reading standard output failed with this error.
    StdoutFailed(String),
    /// A line on standard error.
    StderrLine(String),
    /// Standard error reached its end.
    StderrClosed,
    /// Reading standard error failed with this error.
    StderrFailed(String),
    /// The process exited; `code` is its exit code where it has one and
    /// `status` describes the exit status.
    Exited { code: Option<i32>, status: String },
    /// Waiting for the process failed with this error.
    WaitFailed(String),
    /// Writing to the process's input failed with this error.
    StdinFailed(String),
}

/// What to do after an event: the lines to log and what to write to the
/// subprocess's standard input.
pub struct Reaction {
    pub logs: Vec<LogLine>,
    pub stdin_write: Option<String>,
}

/// The state of one run: which streams are still read, and the outcome once
/// it is known. An aborted run is over at once.
pub struct ProcessMonitor {
    pub stdout_open: bool,
    pub stderr_open: bool,
    pub outcome: Option<Result<(), String>>,
    pub aborted: bool,
}

/// The prompt by which the tool asks to accept its terms of service.
pub open spec fn tos_prompt() -> Seq<char> {
    "Do you accept the TOS? Y/n"@
}

/// The answer written to the prompt.
pub open spec fn tos_answer() -> Seq<char> {
    "y\n"@
}

/// An output line that holds the prompt.
pub open spec fn is_prompt_line(line: String) -> bool {
    contains(line@, tos_prompt())
}

/// What is written to standard input on `e`.
pub open spec fn stdin_write_for(e: ProcessEvent) -> Option<Seq<char>> {
    match e {
        ProcessEvent::StdoutLine(line) => if is_prompt_line(line) {
            Some(tos_answer())
        } else {
            None
        },
        _ => None,
    }
}

/// The message of a failed run with exit status `status`.
pub open spec fn failure_message(status: Seq<char>) -> Seq<char> {
    "Lego command failed with status: "@ + status
}

/// What is logged on `e`: output lines as information, error lines and read
/// errors as errors, a warning before the prompt is answered, and the outcome.
pub open spec fn logs_for(e: ProcessEvent) -> Seq<(LogLevel, Seq<char>)> {
    match e {
        ProcessEvent::StdoutLine(line) => if is_prompt_line(line) {
            seq![
                (LogLevel::Info, line@),
                (LogLevel::Warn, "TOS prompt detected. Responding with 'y'."@),
            ]
        } else {
            seq![(LogLevel::Info, line@)]
        },
        ProcessEvent::StdoutClosed => Seq::empty(),
        ProcessEvent::StderrClosed => Seq::empty(),
        ProcessEvent::StdoutFailed(err) => seq![(LogLevel::Error, err@)],
        ProcessEvent::StderrLine(line) => seq![(LogLevel::Error, line@)],
        ProcessEvent::StderrFailed(err) => seq![(LogLevel::Error, err@)],
        ProcessEvent::Exited { code, status } => if code == Some(0i32) {
            seq![(LogLevel::Info, "Lego command finished successfully."@)]
        } else {
            seq![(LogLevel::Error, failure_message(status@))]
        },
        ProcessEvent::WaitFailed(err) => seq![(LogLevel::Error, err@)],
        ProcessEvent::StdinFailed(err) => seq![(LogLevel::Error, err@)],
    }
}

/// `t` is the state after `e` in state `s`: a stream that ended or failed is
/// no longer read; an exit fixes the outcome, success exactly for exit code 0;
/// a failure to wait or to write aborts the run with that error.
pub open spec fn steps_to(s: ProcessMonitor, e: ProcessEvent, t: ProcessMonitor) -> bool {
    match e {
        ProcessEvent::StdoutClosed | ProcessEvent::StdoutFailed(_) => t == ProcessMonitor {
            stdout_open: false,
            ..s
        },
        ProcessEvent::StderrClosed | ProcessEvent::StderrFailed(_) => t == ProcessMonitor {
            stderr_open: false,
            ..s
        },
        ProcessEvent::Exited { code, status } => {
            &&& t.stdout_open == s.stdout_open
            &&& t.stderr_open == s.stderr_open
            &&& t.aborted == s.aborted
            &&& if code == Some(0i32) {
                t.outcome == Some(Ok::<(), String>(()))
            } else {
                t.outcome matches Some(Err(m)) && m@ == failure_message(status@)
            }
        },
        ProcessEvent::WaitFailed(err) | ProcessEvent::StdinFailed(err) => t == ProcessMonitor {
            outcome: Some(Err(err)),
            aborted: true,
            ..s
        },
        _ => t == s,
    }
}

/// The run is over: it was aborted, or the process exited and both streams
/// were read to their end.
pub open spec fn run_over(s: ProcessMonitor) -> bool {
    s.aborted || (s.outcome is Some && !s.stdout_open && !s.stderr_open)
}

fn log_line(level: LogLevel, message: String) -> (r: LogLine)
    ensures
        r.level == level,
        r.message == message,
{
    LogLine { level, message }
}

impl ProcessMonitor {
    /// A run that has just started: both streams open, no outcome.
    pub fn new() -> (r: ProcessMonitor)
        ensures
            r.stdout_open,
            r.stderr_open,
            r.outcome is None,
            !r.aborted,
    {
        ProcessMonitor { stdout_open: true, stderr_open: true, outcome: None, aborted: false }
    }

    /// Takes in one event: updates the state and says what to log and what to
    /// write to the subprocess. The prompt is answered each time it is seen.
    pub fn handle(&mut self, event: ProcessEvent) -> (r: Reaction)
        ensures
            steps_to(*old(self), event, *final(self)),
            lines_view(r.logs@) == logs_for(event),
            r.stdin_write matches Some(w) ==> stdin_write_for(event) == Some(w@),
            r.stdin_write is None ==> stdin_write_for(event) is None,
    {
        let mut logs: Vec<LogLine> = Vec::new();
        let mut stdin_write: Option<String> = None;
        let ghost e = event;
        match event {
            ProcessEvent::StdoutLine(line) => {
                let prompt = contains_str(line.as_str(), "Do you accept the TOS? Y/n");
                logs.push(log_line(LogLevel::Info, line));
                if prompt {
                    logs.push(
                        log_line(
                            LogLevel::Warn,
                            String::from_str("TOS prompt detected. Responding with 'y'."),
                        ),
                    );
                    stdin_write = Some(String::from_str("y\n"));
                }
            },
            ProcessEvent::StdoutClosed => {
                self.stdout_open = false;
            },
            ProcessEvent::StdoutFailed(err) => {
                logs.push(log_line(LogLevel::Error, err));
                self.stdout_open = false;
            },
            ProcessEvent::StderrLine(line) => {
                logs.push(log_line(LogLevel::Error, line));
            },
            ProcessEvent::StderrClosed => {
                self.stderr_open = false;
            },
            ProcessEvent::StderrFailed(err) => {
                logs.push(log_line(LogLevel::Error, err));
                self.stderr_open = false;
            },
            ProcessEvent::Exited { code, status } => {
                if let Some(0i32) = code {
                    logs.push(
                        log_line(LogLevel::Info, String::from_str("Lego command finished successfully.")),
                    );
                    self.outcome = Some(Ok(()));
                } else {
                    let mut message = String::from_str("Lego command failed with status: ");
                    message.append(status.as_str());
                    let copy = message.clone();
                    logs.push(log_line(LogLevel::Error, message));
                    self.outcome = Some(Err(copy));
                }
            },
            ProcessEvent::WaitFailed(err) => {
                let copy = err.clone();
                logs.push(log_line(LogLevel::Error, err));
                self.outcome = Some(Err(copy));
                self.aborted = true;
            },
            ProcessEvent::StdinFailed(err) => {
                let copy = err.clone();
                logs.push(log_line(LogLevel::Error, err));
                self.outcome = Some(Err(copy));
                self.aborted = true;
            },
        }
        assert(lines_view(logs@) =~= logs_for(e));
        Reaction { logs, stdin_write }
    }

    /// Whether the run is over.
    pub fn is_over(&self) -> (r: bool)
        ensures
            r == run_over(*self),
    {
        self.aborted || (self.outcome.is_some() && !self.stdout_open && !self.stderr_open)
    }
}

/// The lines that the subprocess wrote on standard output during a run.
pub open spec fn stdout_lines(events: Seq<ProcessEvent>) -> Seq<String>
    decreases events.len(),
{
    if events.len() == 0 {
        Seq::empty()
    } else {
        match events[0] {
            ProcessEvent::StdoutLine(line) => seq![line] + stdout_lines(events.drop_first()),
            _ => stdout_lines(events.drop_first()),
        }
    }
}

/// Everything written to standard input over a run, one entry per write.
pub open spec fn stdin_writes(events: Seq<ProcessEvent>) -> Seq<Seq<char>>
    decreases events.len(),
{
    if events.len() == 0 {
        Seq::empty()
    } else {
        match stdin_write_for(events[0]) {
            Some(w) => seq![w] + stdin_writes(events.drop_first()),
            None => stdin_writes(events.drop_first()),
        }
    }
}

/// Over any run, standard input receives exactly one `y\n` for each output
/// line that holds the terms of service prompt, and nothing else.
pub proof fn lemma_one_answer_per_prompt(events: Seq<ProcessEvent>)
    ensures
        stdin_writes(events).len() == stdout_lines(events).filter(|l: String| is_prompt_line(l)).len(),
        forall|i: int| 0 <= i < stdin_writes(events).len() ==> #[trigger] stdin_writes(events)[i]
            == tos_answer(),
    decreases events.len(),
{
    let p = |l: String| is_prompt_line(l);
    if events.len() == 0 {
        reveal(Seq::filter);
    } else {
        let rest = events.drop_first();
        lemma_one_answer_per_prompt(rest);
        match events[0] {
            ProcessEvent::StdoutLine(line) => {
                stdout_lines(rest).lemma_filter_prepend(line, p);
            },
            _ => {},
        }
    }
}

} // verus!
