//! Errors of the recovery store.

use vstd::prelude::*;
use vstd::string::*;
use crate::text::{decimal, decimal_text, join2};

verus! {

/// The largest size of a recovery file, in bytes.
pub const MAX_RECOVERY_DATA_BYTES: u32 = 10_485_760;

/// What can go wrong when recovery data is saved or loaded.
#[derive(Debug, Clone)]
pub enum RecoveryError {
    /// The file does not exist; this is an expected case.
    FileNotFound,
    /// The file name was refused.
    ValidationError { message: String },
    /// The data is larger than the limit.
    DataTooLarge { max_bytes: u32 },
    /// The file system reported an error.
    IoError { message: String },
    /// The data could not be encoded or decoded.
    ParseError { message: String },
}

/// The mathematical value of a [`RecoveryError`].
pub enum RecoveryModel {
    FileNotFound,
    ValidationError { message: Seq<char> },
    DataTooLarge { max_bytes: u32 },
    IoError { message: Seq<char> },
    ParseError { message: Seq<char> },
}

impl View for RecoveryError {
    type V = RecoveryModel;

    open spec fn view(&self) -> RecoveryModel {
        match *self {
            RecoveryError::FileNotFound => RecoveryModel::FileNotFound,
            RecoveryError::ValidationError { message } => RecoveryModel::ValidationError {
                message: message@,
            },
            RecoveryError::DataTooLarge { max_bytes } => RecoveryModel::DataTooLarge { max_bytes },
            RecoveryError::IoError { message } => RecoveryModel::IoError { message: message@ },
            RecoveryError::ParseError { message } => RecoveryModel::ParseError {
                message: message@,
            },
        }
    }
}

impl RecoveryModel {
    /// The line shown to a user for this error.
    pub open spec fn text(self) -> Seq<char> {
        match self {
            RecoveryModel::FileNotFound => "File not found"@,
            RecoveryModel::ValidationError { message } => "Validation error: "@ + message,
            RecoveryModel::DataTooLarge { max_bytes } => "Data too large (max "@ + decimal_text(
                max_bytes as nat,
            ) + " bytes)"@,
            RecoveryModel::IoError { message } => "IO error: "@ + message,
            RecoveryModel::ParseError { message } => "Parse error: "@ + message,
        }
    }
}

impl RecoveryError {
    /// The human-readable line for this error.
    pub fn describe(&self) -> (r: String)
        ensures
            r@ == self@.text(),
    {
        match self {
            RecoveryError::FileNotFound => "File not found".to_owned(),
            RecoveryError::ValidationError { message } => join2(
                "Validation error: ",
                message.as_str(),
            ),
            RecoveryError::DataTooLarge { max_bytes } => {
                let limit = decimal(*max_bytes);
                let head = join2("Data too large (max ", limit.as_str());
                join2(head.as_str(), " bytes)")
            },
            RecoveryError::IoError { message } => join2("IO error: ", message.as_str()),
            RecoveryError::ParseError { message } => join2("Parse error: ", message.as_str()),
        }
    }
}

} // verus!
