//! The decisions of running a command: which program to start with which
//! arguments, how the lines read from its two output streams build one log,
//! when reading stops, and whether the run succeeded.

use vstd::prelude::*;

verus! {

/// The host operating-system family, which decides the command interpreter.
#[derive(Clone, Copy, Debug, PartialEq, Eq, Structural)]
pub enum OsFamily {
    Windows,
    Unix,
}

/// A program and its arguments, ready to be started.
#[derive(Debug)]
pub struct Invocation {
    pub program: String,
    pub args: Vec<String>,
}

/// Interpreter and its run-this-command flag for an OS family.
pub open spec fn interpreter_of(os: OsFamily) -> (Seq<char>, Seq<char>) {
    match os {
        OsFamily::Windows => ("cmd"@, "/C"@),
        OsFamily::Unix => ("sh"@, "-c"@),
    }
}

/// The interpreter in shell mode; the coding-agent executable otherwise.
pub open spec fn program_of(is_shell_mode: bool, os: OsFamily, agent_program: Seq<char>) -> Seq<
    char,
> {
    if is_shell_mode {
        interpreter_of(os).0
    } else {
        agent_program
    }
}

/// Arguments: the interpreter's flag and the command in shell mode; in
/// agent mode the optional permission and continuation flags, then `code`
/// and the command.
pub open spec fn args_of(
    command: Seq<char>,
    is_shell_mode: bool,
    os: OsFamily,
    skip_permissions: bool,
    continue_from_last: bool,
) -> Seq<Seq<char>> {
    if is_shell_mode {
        seq![interpreter_of(os).1, command]
    } else {
        (if skip_permissions {
            seq!["--dangerously-skip-permissions"@]
        } else {
            Seq::empty()
        }) + (if continue_from_last {
            seq!["-c"@]
        } else {
            Seq::empty()
        }) + seq!["code"@, command]
    }
}

/// The interpreter that runs shell-mode commands on an OS family.
pub fn interpreter_for(os: OsFamily) -> (r: (String, String))
    ensures
        r.0@ == interpreter_of(os).0,
        r.1@ == interpreter_of(os).1,
{
    match os {
        OsFamily::Windows => (String::from_str("cmd"), String::from_str("/C")),
        OsFamily::Unix => (String::from_str("sh"), String::from_str("-c")),
    }
}

/// The program and arguments that run `command` in the chosen mode;
/// `agent_program` is the coding-agent executable used outside shell mode.
pub fn command_invocation(
    command: &str,
    is_shell_mode: bool,
    os: OsFamily,
    agent_program: &str,
    skip_permissions: bool,
    continue_from_last: bool,
) -> (r: Invocation)
    ensures
        r.program@ == program_of(is_shell_mode, os, agent_program@),
        r.args@.map_values(|a: String| a@) == args_of(
            command@,
            is_shell_mode,
            os,
            skip_permissions,
            continue_from_last,
        ),
{
    let mut args: Vec<String> = Vec::new();
    if is_shell_mode {
        let (program, flag) = interpreter_for(os);
        args.push(flag);
        args.push(String::from_str(command));
        assert(args@.map_values(|a: String| a@) =~= args_of(
            command@,
            is_shell_mode,
            os,
            skip_permissions,
            continue_from_last,
        ));
        Invocation { program, args }
    } else {
        if skip_permissions {
            args.push(String::from_str("--dangerously-skip-permissions"));
        }
        if continue_from_last {
            args.push(String::from_str("-c"));
        }
        args.push(String::from_str("code"));
        args.push(String::from_str(command));
        assert(args@.map_values(|a: String| a@) =~= args_of(
            command@,
            is_shell_mode,
            os,
            skip_permissions,
            continue_from_last,
        ));
        Invocation { program: String::from_str(agent_program), args }
    }
}

/// One outcome of reading the next line from the child's stdout or stderr.
#[derive(Debug)]
pub enum StreamEvent {
    StdoutLine(String),
    StdoutClosed,
    /// A read error on stdout, with its message.
    StdoutFailed(String),
    StderrLine(String),
    StderrClosed,
    /// A read error on stderr, with its message.
    StderrFailed(String),
}

/// What an event adds to the combined log.
pub open spec fn event_text(e: StreamEvent) -> Seq<char> {
    match e {
        StreamEvent::StdoutLine(l) => l@ + "\n"@,
        StreamEvent::StderrLine(l) => l@ + "\n"@,
        StreamEvent::StdoutFailed(m) => "Error reading stdout: "@ + m@ + "\n"@,
        StreamEvent::StderrFailed(m) => "Error reading stderr: "@ + m@ + "\n"@,
        StreamEvent::StdoutClosed => Seq::empty(),
        StreamEvent::StderrClosed => Seq::empty(),
    }
}

/// Reading stops when stdout ends or fails.
pub open spec fn ends_draining(e: StreamEvent) -> bool {
    e is StdoutClosed || e is StdoutFailed
}

/// Some event of `events` stopped the reading.
pub open spec fn drain_over(events: Seq<StreamEvent>) -> bool
    decreases events.len(),
{
    events.len() > 0 && (drain_over(events.drop_last()) || ends_draining(events.last()))
}

/// Stderr has reported its end among `events`.
pub open spec fn stderr_closed_in(events: Seq<StreamEvent>) -> bool
    decreases events.len(),
{
    events.len() > 0 && (stderr_closed_in(events.drop_last()) || events.last() is StderrClosed)
}

/// The combined log after `events`: the text of each event up to and
/// including the one that stopped the reading, in the order they came.
pub open spec fn drained_text(events: Seq<StreamEvent>) -> Seq<char>
    decreases events.len(),
{
    if events.len() == 0 {
        Seq::empty()
    } else if drain_over(events.drop_last()) {
        drained_text(events.drop_last())
    } else {
        drained_text(events.drop_last()) + event_text(events.last())
    }
}

/// The result of a run: whether it succeeded, and its combined output.
#[derive(Debug)]
pub struct ExecutionReport {
    pub success: bool,
    pub output: String,
}

/// A run succeeded when the process exited with code zero; termination by a
/// signal (no code) is a failure.
pub open spec fn exit_succeeded(exit_code: Option<i32>) -> bool {
    exit_code == Some(0i32)
}

/// Builds the combined log of one run from the events of its two streams.
pub struct OutputCollector {
    output: String,
    finished: bool,
    stderr_open: bool,
    seen: Ghost<Seq<StreamEvent>>,
}

impl OutputCollector {
    /// The events recorded so far.
    pub closed spec fn events(&self) -> Seq<StreamEvent> {
        self.seen@
    }

    pub closed spec fn inv(&self) -> bool {
        &&& self.output@ == drained_text(self.seen@)
        &&& self.finished == drain_over(self.seen@)
        &&& self.stderr_open == !stderr_closed_in(self.seen@)
    }

    pub fn new() -> (r: OutputCollector)
        ensures
            r.inv(),
            r.events() == Seq::<StreamEvent>::empty(),
    {
        OutputCollector {
            output: String::new(),
            finished: false,
            stderr_open: true,
            seen: Ghost(Seq::empty()),
        }
    }

    /// Whether reading has stopped: stdout has ended or failed.
    pub fn is_finished(&self) -> (r: bool)
        requires
            self.inv(),
        ensures
            r == drain_over(self.events()),
    {
        self.finished
    }

    /// Whether stderr is still worth reading: it has not reported its end.
    pub fn reads_stderr(&self) -> (r: bool)
        requires
            self.inv(),
        ensures
            r == !stderr_closed_in(self.events()),
    {
        self.stderr_open
    }

    /// The combined log so far.
    pub fn output(&self) -> (r: &String)
        requires
            self.inv(),
        ensures
            r@ == drained_text(self.events()),
    {
        &self.output
    }

    /// Records the next event, while reading has not stopped.
    pub fn record(&mut self, event: StreamEvent)
        requires
            old(self).inv(),
            !drain_over(old(self).events()),
        ensures
            final(self).inv(),
            final(self).events() == old(self).events().push(event),
            drained_text(final(self).events()) == drained_text(old(self).events()) + event_text(event),
    {
        let ghost before = self.seen@;
        let ghost after = before.push(event);
        assert(after.drop_last() == before);
        match &event {
            StreamEvent::StdoutLine(line) => {
                self.output.append(line.as_str());
                self.output.append("\n");
            },
            StreamEvent::StderrLine(line) => {
                self.output.append(line.as_str());
                self.output.append("\n");
            },
            StreamEvent::StdoutFailed(message) => {
                self.output.append("Error reading stdout: ");
                self.output.append(message.as_str());
                self.output.append("\n");
                self.finished = true;
            },
            StreamEvent::StderrFailed(message) => {
                self.output.append("Error reading stderr: ");
                self.output.append(message.as_str());
                self.output.append("\n");
            },
            StreamEvent::StdoutClosed => {
                self.finished = true;
            },
            StreamEvent::StderrClosed => {
                self.stderr_open = false;
            },
        }
        self.seen = Ghost(after);
        assert(self.output@ =~= drained_text(after));
    }

    /// Ends the run with the child's exit code: success is decided by the
    /// code alone, never by what was printed.
    pub fn finish(self, exit_code: Option<i32>) -> (r: ExecutionReport)
        requires
            self.inv(),
        ensures
            r.success == exit_succeeded(exit_code),
            r.output@ == drained_text(self.events()),
    {
        let success = match exit_code {
            Some(code) => code == 0,
            None => false,
        };
        ExecutionReport { success, output: self.output }
    }
}

/// Events for lines read from stdout.
pub open spec fn stdout_events(lines: Seq<String>) -> Seq<StreamEvent> {
    lines.map_values(|l: String| StreamEvent::StdoutLine(l))
}

/// Lines one after another, each ending in a newline.
pub open spec fn lines_text(lines: Seq<String>) -> Seq<char>
    decreases lines.len(),
{
    if lines.len() == 0 {
        Seq::empty()
    } else {
        lines_text(lines.drop_last()) + lines.last()@ + "\n"@
    }
}

proof fn lemma_stdout_lines(lines: Seq<String>)
    ensures
        !drain_over(stdout_events(lines)),
        drained_text(stdout_events(lines)) == lines_text(lines),
    decreases lines.len(),
{
    if lines.len() > 0 {
        lemma_stdout_lines(lines.drop_last());
        assert(stdout_events(lines).drop_last() =~= stdout_events(lines.drop_last()));
        assert(drained_text(stdout_events(lines)) =~= lines_text(lines));
    }
}

proof fn lemma_after_stop(head: Seq<StreamEvent>, later: Seq<StreamEvent>)
    requires
        drain_over(head),
    ensures
        drain_over(head + later),
        drained_text(head + later) == drained_text(head),
    decreases later.len(),
{
    if later.len() > 0 {
        lemma_after_stop(head, later.drop_last());
        assert((head + later).drop_last() =~= head + later.drop_last());
    } else {
        assert(head + later =~= head);
    }
}

/// When a command writes lines to stdout and then closes it, the combined
/// log holds exactly those lines, in order, each ending in a newline; reading
/// stops at the close, so nothing that comes after it, such as stderr output
/// written later, reaches the log.
pub proof fn stdout_lines_before_close_kept(lines: Seq<String>, later: Seq<StreamEvent>)
    ensures
        drain_over(stdout_events(lines).push(StreamEvent::StdoutClosed)),
        drained_text(stdout_events(lines).push(StreamEvent::StdoutClosed) + later) == lines_text(
            lines,
        ),
{
    let head = stdout_events(lines).push(StreamEvent::StdoutClosed);
    lemma_stdout_lines(lines);
    assert(head.drop_last() == stdout_events(lines));
    assert(drained_text(head) =~= lines_text(lines));
    lemma_after_stop(head, later);
}

} // verus!
