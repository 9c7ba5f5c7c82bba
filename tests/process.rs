use lazy_acme::logging::LogLevel;
use lazy_acme::process::{ProcessEvent, ProcessMonitor};

fn out(s: &str) -> ProcessEvent {
    ProcessEvent::StdoutLine(s.to_string())
}

#[test]
fn each_prompt_line_gets_one_answer() {
    let events = vec![
        out("Saving key"),
        out("Do you accept the TOS? Y/n"),
        ProcessEvent::StderrLine("warning".to_string()),
        out("please: Do you accept the TOS? Y/n [y]"),
        out("done"),
    ];
    let mut monitor = ProcessMonitor::new();
    let mut writes: Vec<String> = Vec::new();
    for e in events {
        if let Some(w) = monitor.handle(e).stdin_write {
            writes.push(w);
        }
    }
    assert_eq!(writes, vec!["y\n".to_string(), "y\n".to_string()]);
}

#[test]
fn no_prompt_means_no_input() {
    let mut monitor = ProcessMonitor::new();
    let r = monitor.handle(out("Do you accept the terms?"));
    assert!(r.stdin_write.is_none());
    assert_eq!(r.logs.len(), 1);
    assert_eq!(r.logs[0].level, LogLevel::Info);
    assert_eq!(r.logs[0].message, "Do you accept the terms?");
}

#[test]
fn prompt_is_logged_with_a_warning() {
    let mut monitor = ProcessMonitor::new();
    let r = monitor.handle(out("Do you accept the TOS? Y/n"));
    assert_eq!(r.logs.len(), 2);
    assert_eq!(r.logs[1].level, LogLevel::Warn);
    assert_eq!(r.logs[1].message, "TOS prompt detected. Responding with 'y'.");
}

#[test]
fn success_needs_exit_zero_and_both_streams_ended() {
    let mut monitor = ProcessMonitor::new();
    monitor.handle(ProcessEvent::Exited { code: Some(0), status: "exit status: 0".to_string() });
    assert!(!monitor.is_over());
    monitor.handle(ProcessEvent::StdoutClosed);
    assert!(!monitor.is_over());
    let r = monitor.handle(ProcessEvent::StderrClosed);
    assert!(r.logs.is_empty());
    assert!(monitor.is_over());
    assert_eq!(monitor.outcome, Some(Ok(())));
}

#[test]
fn nonzero_exit_fails_with_its_status() {
    let mut monitor = ProcessMonitor::new();
    monitor.handle(ProcessEvent::StdoutClosed);
    monitor.handle(ProcessEvent::StderrClosed);
    let r = monitor.handle(ProcessEvent::Exited { code: Some(1), status: "exit status: 1".to_string() });
    assert_eq!(r.logs[0].level, LogLevel::Error);
    assert!(monitor.is_over());
    assert_eq!(monitor.outcome, Some(Err("Lego command failed with status: exit status: 1".to_string())));
}

#[test]
fn exit_by_signal_fails() {
    let mut monitor = ProcessMonitor::new();
    monitor.handle(ProcessEvent::Exited { code: None, status: "signal: 9 (SIGKILL)".to_string() });
    assert_eq!(monitor.outcome, Some(Err("Lego command failed with status: signal: 9 (SIGKILL)".to_string())));
}

#[test]
fn read_error_is_logged_and_ends_that_stream_only() {
    let mut monitor = ProcessMonitor::new();
    let r = monitor.handle(ProcessEvent::StdoutFailed("bad utf-8".to_string()));
    assert_eq!(r.logs[0].level, LogLevel::Error);
    assert!(!monitor.stdout_open);
    assert!(monitor.stderr_open);
    assert!(monitor.outcome.is_none());
    monitor.handle(ProcessEvent::StderrClosed);
    monitor.handle(ProcessEvent::Exited { code: Some(0), status: "exit status: 0".to_string() });
    assert_eq!(monitor.outcome, Some(Ok(())));
}

#[test]
fn failure_to_wait_aborts_the_run() {
    let mut monitor = ProcessMonitor::new();
    monitor.handle(ProcessEvent::WaitFailed("no child".to_string()));
    assert!(monitor.is_over());
    assert_eq!(monitor.outcome, Some(Err("no child".to_string())));
}

#[test]
fn stderr_lines_are_logged_as_errors() {
    let mut monitor = ProcessMonitor::new();
    let r = monitor.handle(ProcessEvent::StderrLine("Do you accept the TOS? Y/n".to_string()));
    assert!(r.stdin_write.is_none());
    assert_eq!(r.logs[0].level, LogLevel::Error);
}
