//! Session management for interactive pseudo-terminal shells.
//!
//! The crate holds the rules of a terminal backend: which shells may be
//! launched, where, and with which environment; what a session's output
//! reader reports for each result of a read; and the registry that maps
//! session identifiers to live sessions under a fixed limit.  The operating
//! system work itself (opening a terminal, starting and signalling a process,
//! reading and writing its streams) is supplied by the embedding program as
//! functions that the registry's operations call.

pub mod text;
pub mod types;
pub mod policy;
pub mod command;
pub mod session;
pub mod manager;
pub mod reader;
pub mod validation;
pub mod preferences;
pub mod recovery;

pub use crate::manager::PtyManager;
pub use crate::preferences::AppPreferences;
pub use crate::recovery::RecoveryError;
pub use crate::session::{ChildStatus, HostDefaults, LaunchFailure, PtySession, TerminalSize};
pub use crate::types::{PtyError, PtyEvent, SessionInfo, SpawnOptions};
pub use crate::validation::{validate_filename, validate_theme};
