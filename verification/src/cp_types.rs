//! Plain data carried between the panels, the copy loop and its dialogs.

use vstd::prelude::*;

verus! {

/// One file to copy: where it comes from, where it goes and its row in the source table.
#[allow(non_camel_case_types)]
#[derive(Clone, Debug, PartialEq, Eq)]
pub struct copy_job {
    pub source: String,
    pub target: String,
    pub inx: usize,
}

/// Errors of a copy process, each with the message the user is shown.
#[allow(non_camel_case_types)]
#[derive(Clone, Debug, PartialEq, Eq)]
pub enum Cp_error {
    CP_SOURCE_DOESNOT_EXIST,
    CP_TARGET_DOESNOT_EXIST,
    CP_COULDNOT_START,
    CP_COULDNOT_READ_STDERR,
    CP_COULDNOT_READ_STDOUT,
    CP_EXIT_STATUS_ERROR(String),
    CP_EXIT_STATUS_SUCCESS,
}

/// The answer of the "path exists" dialog; the flag says whether it applies to all
/// further conflicts of the copy session.
#[derive(Clone, Copy, Debug, PartialEq, Eq, Structural)]
pub enum ExistingPathDilemma {
    Skip(bool),
    Overwrite(bool),
    ReplaceOlder(bool),
    ReplaceNewer(bool),
    DifferentSizes(bool),
}

/// A change seen in the directory shown by a table view.
#[derive(Clone, Debug, PartialEq, Eq)]
pub struct UpdateInfo {
    pub table_view_name: String,
    pub path: String,
}

/// How an external process (`cp`, `rm`, `fd`) ended.
#[allow(non_camel_case_types)]
#[derive(Clone, Debug, PartialEq, Eq)]
pub enum EXIT_PROCESS_STATUS {
    EXIT_STATUS_SUCCESS,
    COULD_NOT_START,
    CANCELLED,
    EXIT_STATUS_ERROR(String),
    COULD_NOT_READ_STDERR(String),
    COULD_NOT_READ_STDOUT(String),
}

/// The meaning of an `EXIT_PROCESS_STATUS`, with texts as character sequences.
pub enum ExitStatus {
    Success,
    CouldNotStart,
    Cancelled,
    Error(Seq<char>),
    CouldNotReadStderr(Seq<char>),
    CouldNotReadStdout(Seq<char>),
}

impl EXIT_PROCESS_STATUS {
    pub open spec fn view(&self) -> ExitStatus {
        match self {
            EXIT_PROCESS_STATUS::EXIT_STATUS_SUCCESS => ExitStatus::Success,
            EXIT_PROCESS_STATUS::COULD_NOT_START => ExitStatus::CouldNotStart,
            EXIT_PROCESS_STATUS::CANCELLED => ExitStatus::Cancelled,
            EXIT_PROCESS_STATUS::EXIT_STATUS_ERROR(s) => ExitStatus::Error(s@),
            EXIT_PROCESS_STATUS::COULD_NOT_READ_STDERR(s) => ExitStatus::CouldNotReadStderr(s@),
            EXIT_PROCESS_STATUS::COULD_NOT_READ_STDOUT(s) => ExitStatus::CouldNotReadStdout(s@),
        }
    }
}

/// The requests the copy dialog sends to a running copy process.
#[derive(Clone, Copy, Debug, PartialEq, Eq, Structural)]
pub enum InterruptSignal {
    /// Suspend the process (SIGSTOP).
    Stop,
    /// Resume the process (SIGCONT).
    Continue,
    /// Cancel the process (SIGTERM).
    Terminate,
    /// Any other signal, which is ignored.
    Other,
}

/// The message shown for each copy error.
pub open spec fn cp_error_message(e: Cp_error) -> Seq<char> {
    match e {
        Cp_error::CP_SOURCE_DOESNOT_EXIST => "Source does not exist"@,
        Cp_error::CP_TARGET_DOESNOT_EXIST => "Target does not exist"@,
        Cp_error::CP_COULDNOT_START => "Could not start cp process"@,
        Cp_error::CP_COULDNOT_READ_STDERR => "Could not read stderr"@,
        Cp_error::CP_COULDNOT_READ_STDOUT => "Could not read stdout"@,
        Cp_error::CP_EXIT_STATUS_ERROR(_) => Seq::empty(),
        Cp_error::CP_EXIT_STATUS_SUCCESS => Seq::empty(),
    }
}

impl Cp_error {
    /// The message shown to the user for this error.
    pub fn message(&self) -> (s: String)
        ensures
            s@ == cp_error_message(*self),
    {
        match self {
            Cp_error::CP_SOURCE_DOESNOT_EXIST => String::from_str("Source does not exist"),
            Cp_error::CP_TARGET_DOESNOT_EXIST => String::from_str("Target does not exist"),
            Cp_error::CP_COULDNOT_START => String::from_str("Could not start cp process"),
            Cp_error::CP_COULDNOT_READ_STDERR => String::from_str("Could not read stderr"),
            Cp_error::CP_COULDNOT_READ_STDOUT => String::from_str("Could not read stdout"),
            Cp_error::CP_EXIT_STATUS_ERROR(_) => crate::text::empty_string(),
            Cp_error::CP_EXIT_STATUS_SUCCESS => crate::text::empty_string(),
        }
    }
}

impl EXIT_PROCESS_STATUS {
    /// Whether the process has so far ended without any error.
    pub fn is_success(&self) -> (b: bool)
        ensures
            b == (*self is EXIT_STATUS_SUCCESS),
    {
        match self {
            EXIT_PROCESS_STATUS::EXIT_STATUS_SUCCESS => true,
            _ => false,
        }
    }
}

} // verus!
