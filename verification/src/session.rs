//! One session's record, and the plain values that pass between the registry
//! and the code that performs the operating system's part.

use vstd::prelude::*;
use vstd::string::*;
use crate::types::{ErrorModel, PtyError};

verus! {

/// The size of a terminal's visible area.
#[derive(Debug, Clone, Copy, PartialEq, Eq, Structural)]
pub struct TerminalSize {
    /// Lines of text.
    pub rows: u16,
    /// Columns of text.
    pub cols: u16,
    /// Width of a cell in pixels; 0 where it is not known.
    pub pixel_width: u16,
    /// Height of a cell in pixels; 0 where it is not known.
    pub pixel_height: u16,
}

/// The size for a terminal of `cols` columns and `rows` rows, with no pixel
/// dimensions.
pub open spec fn cell_size(cols: u16, rows: u16) -> TerminalSize {
    TerminalSize { rows, cols, pixel_width: 0, pixel_height: 0 }
}

impl TerminalSize {
    /// The size for a terminal of `cols` columns and `rows` rows.
    pub fn new(cols: u16, rows: u16) -> (size: TerminalSize)
        ensures
            size == cell_size(cols, rows),
    {
        TerminalSize { rows, cols, pixel_width: 0, pixel_height: 0 }
    }
}

/// What the host's environment offers where a request leaves a choice open.
#[derive(Debug, Clone)]
pub struct HostDefaults {
    /// The user's preferred shell, where the host names one.
    pub shell: Option<String>,
    /// The user's home directory, where the host names one.
    pub home: Option<String>,
}

/// The step at which launching a shell failed, with the system's message.
#[derive(Debug, Clone)]
pub enum LaunchFailure {
    /// No terminal could be allocated.
    OpenTerminal { message: String },
    /// The shell process could not be started on the terminal.
    StartProcess { message: String },
    /// The terminal's input side could not be taken.
    TakeWriter { message: String },
    /// The terminal's output side could not be taken.
    CloneReader { message: String },
}

/// The error that a failed launch is reported as.
pub open spec fn launch_failure(failure: LaunchFailure) -> ErrorModel {
    match failure {
        LaunchFailure::OpenTerminal { message } => ErrorModel::SystemError { message: message@ },
        LaunchFailure::StartProcess { message } => ErrorModel::SpawnError { message: message@ },
        LaunchFailure::TakeWriter { message } => ErrorModel::IoError { message: message@ },
        LaunchFailure::CloneReader { message } => ErrorModel::IoError { message: message@ },
    }
}

/// Reports a failed launch: a terminal that could not be allocated is a
/// system error, a process that could not be started a spawn error, a stream
/// that could not be taken an I/O error.
pub fn launch_error(failure: LaunchFailure) -> (e: PtyError)
    ensures
        e@ == launch_failure(failure),
{
    match failure {
        LaunchFailure::OpenTerminal { message } => PtyError::SystemError { message },
        LaunchFailure::StartProcess { message } => PtyError::SpawnError { message },
        LaunchFailure::TakeWriter { message } => PtyError::IoError { message },
        LaunchFailure::CloneReader { message } => PtyError::IoError { message },
    }
}

/// What a poll of a session's process found.
#[derive(Debug, Clone)]
pub enum ChildStatus {
    /// The process has not terminated.
    Running,
    /// The process has terminated with this exit code.
    Exited { code: u32 },
    /// The poll itself failed.
    Unknown { message: String },
}

/// Whether a poll result counts as alive: only a process that was seen
/// running does.
pub open spec fn counts_as_alive(status: ChildStatus) -> bool {
    status is Running
}

impl ChildStatus {
    /// Whether this poll result counts as alive.
    pub fn is_alive(&self) -> (alive: bool)
        ensures
            alive == counts_as_alive(*self),
    {
        match self {
            ChildStatus::Running => true,
            ChildStatus::Exited { .. } => false,
            ChildStatus::Unknown { .. } => false,
        }
    }
}

/// A running shell with its terminal.  `H` is the bundle of operating system
/// handles that belong to it: the input writer, the process, the terminal's
/// control side and the output reader's task.  The registry keeps the bundle
/// alive for as long as the session is registered and never looks inside.
pub struct PtySession<H> {
    /// The shell's process identifier, where the system gave one.
    pub pid: Option<u32>,
    /// The session's operating system handles.
    pub handles: H,
}

impl<H> PtySession<H> {
    /// A session record for a process that was just launched.
    pub fn new(pid: Option<u32>, handles: H) -> (session: Self)
        ensures
            session.pid == pid,
            session.handles == handles,
    {
        PtySession { pid, handles }
    }
}

} // verus!
