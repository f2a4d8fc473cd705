use command_scheduler::executor::{
    command_invocation, interpreter_for, OsFamily, OutputCollector, StreamEvent,
};

#[test]
fn interpreters_by_os() {
    assert_eq!(interpreter_for(OsFamily::Unix), ("sh".to_string(), "-c".to_string()));
    assert_eq!(interpreter_for(OsFamily::Windows), ("cmd".to_string(), "/C".to_string()));
}

#[test]
fn shell_invocation_passes_command_verbatim() {
    let unix = command_invocation("echo a && echo b", true, OsFamily::Unix, "agent-cli", true, true);
    assert_eq!(unix.program, "sh");
    assert_eq!(unix.args, vec!["-c".to_string(), "echo a && echo b".to_string()]);
    let windows = command_invocation("dir", true, OsFamily::Windows, "agent-cli", false, false);
    assert_eq!(windows.program, "cmd");
    assert_eq!(windows.args, vec!["/C".to_string(), "dir".to_string()]);
}

#[test]
fn agent_invocation_flags() {
    let plain = command_invocation("fix it", false, OsFamily::Unix, "agent-cli", false, false);
    assert_eq!(plain.program, "agent-cli");
    assert_eq!(plain.args, vec!["code".to_string(), "fix it".to_string()]);
    let both = command_invocation("fix it", false, OsFamily::Windows, "agent-cli", true, true);
    assert_eq!(
        both.args,
        vec![
            "--dangerously-skip-permissions".to_string(),
            "-c".to_string(),
            "code".to_string(),
            "fix it".to_string()
        ]
    );
    let resume = command_invocation("go on", false, OsFamily::Unix, "agent-cli", false, true);
    assert_eq!(resume.args, vec!["-c".to_string(), "code".to_string(), "go on".to_string()]);
}

fn line(s: &str) -> StreamEvent {
    StreamEvent::StdoutLine(s.to_string())
}

#[test]
fn stdout_lines_in_order_then_close() {
    let mut c = OutputCollector::new();
    for l in ["one", "two", "three"] {
        c.record(line(l));
        assert!(!c.is_finished());
    }
    c.record(StreamEvent::StdoutClosed);
    assert!(c.is_finished());
    let report = c.finish(Some(0));
    assert!(report.success);
    assert_eq!(report.output, "one\ntwo\nthree\n");
}

#[test]
fn interleaved_streams_share_one_log() {
    let mut c = OutputCollector::new();
    c.record(line("out 1"));
    c.record(StreamEvent::StderrLine("warn 1".to_string()));
    assert!(c.reads_stderr());
    c.record(StreamEvent::StderrClosed);
    assert!(!c.reads_stderr());
    c.record(line("out 2"));
    assert_eq!(c.output(), "out 1\nwarn 1\nout 2\n");
    c.record(StreamEvent::StdoutClosed);
    assert_eq!(c.finish(Some(0)).output, "out 1\nwarn 1\nout 2\n");
}

#[test]
fn read_errors_are_logged() {
    let mut c = OutputCollector::new();
    c.record(StreamEvent::StderrFailed("bad utf-8".to_string()));
    assert!(!c.is_finished());
    c.record(StreamEvent::StdoutFailed("broken pipe".to_string()));
    assert!(c.is_finished());
    assert_eq!(
        c.finish(Some(0)).output,
        "Error reading stderr: bad utf-8\nError reading stdout: broken pipe\n"
    );
}

#[test]
fn nonzero_exit_fails_whatever_was_printed() {
    let mut c = OutputCollector::new();
    c.record(line("all good"));
    c.record(StreamEvent::StdoutClosed);
    let report = c.finish(Some(1));
    assert!(!report.success);
    assert_eq!(report.output, "all good\n");
    let mut d = OutputCollector::new();
    d.record(StreamEvent::StdoutClosed);
    assert!(!d.finish(Some(-1)).success);
    let e = OutputCollector::new();
    assert!(!e.finish(None).success);
}

#[test]
fn empty_run_has_empty_log() {
    let mut c = OutputCollector::new();
    c.record(StreamEvent::StdoutClosed);
    let report = c.finish(Some(0));
    assert!(report.success);
    assert_eq!(report.output, "");
}

#[test]
fn two_runs_keep_separate_logs() {
    let mut a = OutputCollector::new();
    let mut b = OutputCollector::new();
    a.record(line("a1"));
    b.record(line("b1"));
    b.record(StreamEvent::StderrLine("b-err".to_string()));
    a.record(line("a2"));
    a.record(StreamEvent::StdoutClosed);
    b.record(StreamEvent::StdoutClosed);
    let ra = a.finish(Some(0));
    let rb = b.finish(Some(3));
    assert_eq!(ra.output, "a1\na2\n");
    assert!(ra.success);
    assert_eq!(rb.output, "b1\nb-err\n");
    assert!(!rb.success);
}
