//! Watching an external process (`cp`, `rm`, `fd`): what to do on a request of the copy
//! dialog or on a periodic check, and how the process's end and output become its exit
//! status.

use vstd::prelude::*;
use crate::cp_types::{EXIT_PROCESS_STATUS, ExitStatus, InterruptSignal};
use crate::text::push_all;

verus! {

/// What a periodic `try_wait` on the process found.
#[derive(Clone, Debug, PartialEq, Eq)]
pub enum WaitOutcome {
    /// The process has exited.
    Exited,
    /// The process is still running.
    Running,
    /// Waiting failed, with the error's text.
    Failed(String),
}

/// What happened while watching the process.
#[derive(Clone, Debug, PartialEq, Eq)]
pub enum MonitorEvent {
    /// A request from the copy dialog (`None`: the request channel failed).
    Interrupt(Option<InterruptSignal>),
    /// The periodic check of the process.
    Tick(WaitOutcome),
}

/// What to do about it.
#[derive(Clone, Debug, PartialEq, Eq)]
pub enum MonitorAction {
    /// Stop the process (SIGSTOP) and offer "Continue".
    Suspend,
    /// Resume the process (SIGCONT) and offer "Pause".
    Resume,
    /// Resume, then terminate the process (SIGCONT, SIGTERM); the process counts as cancelled.
    Cancel,
    /// Keep watching.
    Wait,
    /// The process has exited: stop watching.
    Finished,
    /// Waiting failed: stop watching; the process counts as failed with this text.
    WaitFailed(String),
}

/// Which output stream was read.
#[derive(Clone, Copy, Debug, PartialEq, Eq, Structural)]
pub enum StdStream {
    Stderr,
    Stdout,
}

pub open spec fn monitor_action(e: MonitorEvent) -> MonitorAction {
    match e {
        MonitorEvent::Interrupt(Some(InterruptSignal::Stop)) => MonitorAction::Suspend,
        MonitorEvent::Interrupt(Some(InterruptSignal::Continue)) => MonitorAction::Resume,
        MonitorEvent::Interrupt(Some(InterruptSignal::Terminate)) => MonitorAction::Cancel,
        MonitorEvent::Interrupt(_) => MonitorAction::Wait,
        MonitorEvent::Tick(WaitOutcome::Exited) => MonitorAction::Finished,
        MonitorEvent::Tick(WaitOutcome::Running) => MonitorAction::Wait,
        MonitorEvent::Tick(WaitOutcome::Failed(e)) => MonitorAction::WaitFailed(e),
    }
}

pub open spec fn ends_monitoring(a: MonitorAction) -> bool {
    a is Cancel || a is Finished || a is WaitFailed
}

/// The status after an action: a cancel makes it CANCELLED, a failed wait an error
/// "Could not wait: " followed by the failure.
pub open spec fn status_after_action(s: ExitStatus, a: MonitorAction) -> ExitStatus {
    match a {
        MonitorAction::Cancel => ExitStatus::Cancelled,
        MonitorAction::WaitFailed(e) => ExitStatus::Error("Could not wait: "@ + e@),
        _ => s,
    }
}

/// The status after reading an output stream to its end: a failed read records the failure
/// for that stream, a non-empty output makes the output itself the error.
pub open spec fn status_after_read(
    s: ExitStatus,
    read: Result<Seq<char>, Seq<char>>,
    stream: StdStream,
) -> ExitStatus {
    match read {
        Err(why) => match stream {
            StdStream::Stderr => ExitStatus::CouldNotReadStderr(why),
            StdStream::Stdout => ExitStatus::CouldNotReadStdout(why),
        },
        Ok(buf) => if buf.len() != 0 {
            ExitStatus::Error(buf)
        } else {
            s
        },
    }
}

/// The exit status of a watched process: could not start, or the status the watching
/// ended with, then standard error and standard output each read while the status is
/// still a success.
pub open spec fn exit_status(
    started: bool,
    watched: ExitStatus,
    stderr_read: Result<Seq<char>, Seq<char>>,
    stdout_read: Result<Seq<char>, Seq<char>>,
) -> ExitStatus {
    if !started {
        ExitStatus::CouldNotStart
    } else {
        let s1 = if watched is Success {
            status_after_read(watched, stderr_read, StdStream::Stderr)
        } else {
            watched
        };
        if s1 is Success {
            status_after_read(s1, stdout_read, StdStream::Stdout)
        } else {
            s1
        }
    }
}

pub open spec fn result_view(r: Result<String, String>) -> Result<Seq<char>, Seq<char>> {
    match r {
        Ok(s) => Ok(s@),
        Err(s) => Err(s@),
    }
}

/// What to do about an event while watching a process.
pub fn monitor_step(event: MonitorEvent) -> (a: MonitorAction)
    ensures
        a == monitor_action(event),
{
    match event {
        MonitorEvent::Interrupt(Some(InterruptSignal::Stop)) => MonitorAction::Suspend,
        MonitorEvent::Interrupt(Some(InterruptSignal::Continue)) => MonitorAction::Resume,
        MonitorEvent::Interrupt(Some(InterruptSignal::Terminate)) => MonitorAction::Cancel,
        MonitorEvent::Interrupt(_) => MonitorAction::Wait,
        MonitorEvent::Tick(WaitOutcome::Exited) => MonitorAction::Finished,
        MonitorEvent::Tick(WaitOutcome::Running) => MonitorAction::Wait,
        MonitorEvent::Tick(WaitOutcome::Failed(e)) => MonitorAction::WaitFailed(e),
    }
}

/// Whether the action ends the watching.
pub fn stops_monitoring(a: &MonitorAction) -> (b: bool)
    ensures
        b == ends_monitoring(*a),
{
    match a {
        MonitorAction::Cancel | MonitorAction::Finished | MonitorAction::WaitFailed(_) => true,
        _ => false,
    }
}

/// Records the effect of an action on the exit status.
pub fn apply_monitor_action(status: &mut EXIT_PROCESS_STATUS, a: &MonitorAction)
    ensures
        final(status)@ == status_after_action(old(status)@, *a),
{
    match a {
        MonitorAction::Cancel => {
            *status = EXIT_PROCESS_STATUS::CANCELLED;
        },
        MonitorAction::WaitFailed(e) => {
            let mut msg = String::from_str("Could not wait: ");
            push_all(&mut msg, e.as_str());
            *status = EXIT_PROCESS_STATUS::EXIT_STATUS_ERROR(msg);
        },
        _ => {},
    }
}

/// Whether the output streams still have to be read: only while the status is a success.
pub fn should_read_output(status: &EXIT_PROCESS_STATUS) -> (b: bool)
    ensures
        b == (*status is EXIT_STATUS_SUCCESS),
{
    status.is_success()
}

/// Records what reading an output stream to its end gave: the read failure (`Err`) or the
/// text read (`Ok`).
pub fn read_std_stream(
    exit_process_status: &mut EXIT_PROCESS_STATUS,
    read: Result<String, String>,
    stream: StdStream,
)
    ensures
        final(exit_process_status)@ == status_after_read(old(exit_process_status)@, result_view(read), stream),
{
    match read {
        Err(why) => match stream {
            StdStream::Stderr => {
                *exit_process_status = EXIT_PROCESS_STATUS::COULD_NOT_READ_STDERR(why);
            },
            StdStream::Stdout => {
                *exit_process_status = EXIT_PROCESS_STATUS::COULD_NOT_READ_STDOUT(why);
            },
        },
        Ok(buf) => {
            if !buf.as_str().is_empty() {
                *exit_process_status = EXIT_PROCESS_STATUS::EXIT_STATUS_ERROR(buf);
            }
        },
    }
}

/// A process is reported successful exactly when it started, was not cancelled and its
/// wait did not fail, and both of its output streams were read and empty.
pub proof fn lemma_success_iff_clean(
    started: bool,
    watched: ExitStatus,
    stderr_read: Result<Seq<char>, Seq<char>>,
    stdout_read: Result<Seq<char>, Seq<char>>,
)
    ensures
        exit_status(started, watched, stderr_read, stdout_read) is Success <==> (started
            && watched is Success && stderr_read == Ok::<Seq<char>, Seq<char>>(Seq::empty())
            && stdout_read == Ok::<Seq<char>, Seq<char>>(Seq::empty())),
{
    if let Ok(b) = stderr_read {
        if b.len() == 0 {
            assert(b == Seq::<char>::empty());
        }
    }
    if let Ok(b) = stdout_read {
        if b.len() == 0 {
            assert(b == Seq::<char>::empty());
        }
    }
}

/// Watching keeps a cancel or a failed wait: once the status is no longer a success, the
/// output is not read and the final status is the one the watching ended with.
pub proof fn lemma_failure_is_final(
    watched: ExitStatus,
    stderr_read: Result<Seq<char>, Seq<char>>,
    stdout_read: Result<Seq<char>, Seq<char>>,
)
    requires
        !(watched is Success),
    ensures
        exit_status(true, watched, stderr_read, stdout_read) == watched,
{
}

/// A cancel request always ends the watching with a cancelled status.
pub proof fn lemma_cancel_ends(s: ExitStatus)
    ensures
        ends_monitoring(monitor_action(MonitorEvent::Interrupt(Some(InterruptSignal::Terminate)))),
        status_after_action(s, monitor_action(MonitorEvent::Interrupt(Some(InterruptSignal::Terminate)))) is Cancelled,
{
}

} // verus!
