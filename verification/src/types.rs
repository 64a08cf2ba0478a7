//! The values that cross the library's boundary: spawn requests, session
//! listings, reader events and errors.  Each type comes with the
//! mathematical value (its view) that the contracts speak of.

use vstd::prelude::*;
use vstd::string::*;
use crate::text::join2;

verus! {

/// What can go wrong in a terminal operation.  The variant is the stable kind
/// of the error; the field carries the detail shown to the user.
#[derive(Debug, Clone)]
pub enum PtyError {
    /// The operating system could not provide a terminal.
    SystemError { message: String },
    /// No session is registered under the identifier.
    SessionNotFound { session_id: String },
    /// The shell process could not be started.
    SpawnError { message: String },
    /// Reading from or writing to a session failed.
    IoError { message: String },
    /// The terminal could not be resized.
    ResizeError { message: String },
    /// The registry could not be locked.
    LockError { message: String },
    /// A request named a shell or a directory that is not permitted.
    ValidationError { message: String },
    /// The maximum number of sessions is already running.
    ResourceLimit { message: String },
}

/// The mathematical value of a [`PtyError`].
pub enum ErrorModel {
    SystemError { message: Seq<char> },
    SessionNotFound { session_id: Seq<char> },
    SpawnError { message: Seq<char> },
    IoError { message: Seq<char> },
    ResizeError { message: Seq<char> },
    LockError { message: Seq<char> },
    ValidationError { message: Seq<char> },
    ResourceLimit { message: Seq<char> },
}

impl View for PtyError {
    type V = ErrorModel;

    open spec fn view(&self) -> ErrorModel {
        match *self {
            PtyError::SystemError { message } => ErrorModel::SystemError { message: message@ },
            PtyError::SessionNotFound { session_id } => ErrorModel::SessionNotFound {
                session_id: session_id@,
            },
            PtyError::SpawnError { message } => ErrorModel::SpawnError { message: message@ },
            PtyError::IoError { message } => ErrorModel::IoError { message: message@ },
            PtyError::ResizeError { message } => ErrorModel::ResizeError { message: message@ },
            PtyError::LockError { message } => ErrorModel::LockError { message: message@ },
            PtyError::ValidationError { message } => ErrorModel::ValidationError {
                message: message@,
            },
            PtyError::ResourceLimit { message } => ErrorModel::ResourceLimit { message: message@ },
        }
    }
}

impl ErrorModel {
    /// The line shown to a user for this error: the kind in words, a colon,
    /// and the detail.
    pub open spec fn text(self) -> Seq<char> {
        match self {
            ErrorModel::SystemError { message } => "System error: "@ + message,
            ErrorModel::SessionNotFound { session_id } => "Session not found: "@ + session_id,
            ErrorModel::SpawnError { message } => "Spawn error: "@ + message,
            ErrorModel::IoError { message } => "IO error: "@ + message,
            ErrorModel::ResizeError { message } => "Resize error: "@ + message,
            ErrorModel::LockError { message } => "Lock error: "@ + message,
            ErrorModel::ValidationError { message } => "Validation error: "@ + message,
            ErrorModel::ResourceLimit { message } => "Resource limit: "@ + message,
        }
    }
}

impl PtyError {
    /// The human-readable line for this error.
    pub fn describe(&self) -> (r: String)
        ensures
            r@ == self@.text(),
    {
        match self {
            PtyError::SystemError { message } => join2("System error: ", message.as_str()),
            PtyError::SessionNotFound { session_id } => join2(
                "Session not found: ",
                session_id.as_str(),
            ),
            PtyError::SpawnError { message } => join2("Spawn error: ", message.as_str()),
            PtyError::IoError { message } => join2("IO error: ", message.as_str()),
            PtyError::ResizeError { message } => join2("Resize error: ", message.as_str()),
            PtyError::LockError { message } => join2("Lock error: ", message.as_str()),
            PtyError::ValidationError { message } => join2("Validation error: ", message.as_str()),
            PtyError::ResourceLimit { message } => join2("Resource limit: ", message.as_str()),
        }
    }
}

/// One report from a session's output reader.
#[derive(Debug, Clone)]
pub enum PtyEvent {
    /// Bytes that the terminal produced, exactly as one read returned them.
    Output { data: Vec<u8> },
    /// The output stream ended; the exit status, where it is known.
    Exit { code: Option<i32> },
    /// Reading failed for a reason other than the end of the stream.
    Error { message: String },
}

/// The mathematical value of a [`PtyEvent`].
pub enum EventModel {
    Output { data: Seq<u8> },
    Exit { code: Option<i32> },
    Error { message: Seq<char> },
}

impl View for PtyEvent {
    type V = EventModel;

    open spec fn view(&self) -> EventModel {
        match *self {
            PtyEvent::Output { data } => EventModel::Output { data: data@ },
            PtyEvent::Exit { code } => EventModel::Exit { code },
            PtyEvent::Error { message } => EventModel::Error { message: message@ },
        }
    }
}

impl EventModel {
    /// Whether this event ends a session's stream of events.
    pub open spec fn is_terminal(self) -> bool {
        !(self is Output)
    }
}

impl PtyEvent {
    /// Whether this event ends a session's stream of events.
    pub fn is_terminal(&self) -> (r: bool)
        ensures
            r == self@.is_terminal(),
    {
        match self {
            PtyEvent::Output { .. } => false,
            PtyEvent::Exit { .. } => true,
            PtyEvent::Error { .. } => true,
        }
    }
}

/// A request to start a shell in a new terminal.
#[derive(Debug, Clone)]
pub struct SpawnOptions {
    /// The shell to run; when absent, the host's default shell.
    pub command: Option<String>,
    /// Arguments for the shell; when empty, the shell starts as a login shell.
    pub args: Vec<String>,
    /// The working directory; when absent, the user's home directory.
    pub cwd: Option<String>,
    /// Extra environment variables as name and value.  Where a name occurs
    /// more than once, the last entry counts.
    pub env: Vec<(String, String)>,
    /// Terminal width in character cells.
    pub cols: u16,
    /// Terminal height in character cells.
    pub rows: u16,
}

/// One line of a session listing.
#[derive(Debug, Clone)]
pub struct SessionInfo {
    /// The session's identifier.
    pub id: String,
    /// The shell's process identifier, where the system gave one.
    pub pid: Option<u32>,
    /// Whether the shell was still running when it was last polled.
    pub is_alive: bool,
}

/// The mathematical value of a [`SessionInfo`].
pub struct InfoModel {
    pub id: Seq<char>,
    pub pid: Option<u32>,
    pub is_alive: bool,
}

impl View for SessionInfo {
    type V = InfoModel;

    open spec fn view(&self) -> InfoModel {
        InfoModel { id: self.id@, pid: self.pid, is_alive: self.is_alive }
    }
}

} // verus!
