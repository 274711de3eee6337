//! Errors of reading and writing typed record batch archive files.
use vstd::prelude::*;
use vstd::std_specs::convert::FromSpecImpl;

use super::archive_file::FSEArchiveFileOperation;
use super::record_batch_codec::{record_batch_codec_error_message, FSETypedRecordBatchArchiveCodecError};

verus! {

/// Error returned when typed record batch archive file access fails.
#[derive(Clone, Debug, PartialEq, Eq)]
pub enum FSERecordBatchArchiveFileError {
    /// The path does not use the `.fse` archive extension.
    InvalidFileExtension {
        /// Path provided by the caller.
        path: std::path::PathBuf,
    },
    /// Archive byte encoding or decoding failed.
    Codec(FSETypedRecordBatchArchiveCodecError),
    /// A filesystem operation failed.
    Io {
        /// Operation that failed.
        operation: FSEArchiveFileOperation,
        /// Path used by the operation.
        path: std::path::PathBuf,
        /// Operating-system error kind.
        kind: std::io::ErrorKind,
    },
}

/// Diagnostic text of an error of type `FSERecordBatchArchiveFileError`.
pub open spec fn record_batch_file_error_message(error: FSERecordBatchArchiveFileError) -> &'static str {
    match error {
        FSERecordBatchArchiveFileError::InvalidFileExtension { .. } => { "typed record batch archive path must use the .fse extension" },
        FSERecordBatchArchiveFileError::Codec(error) => { record_batch_codec_error_message(error) },
        FSERecordBatchArchiveFileError::Io { operation, .. } => { match operation { FSEArchiveFileOperation::Read => "failed to read typed record batch archive file", FSEArchiveFileOperation::Write => "failed to write typed record batch archive file" } },
    }
}

impl FSERecordBatchArchiveFileError {
    /// Returns the diagnostic message for the error.
    pub fn message(&self) -> (message: &'static str)
        ensures
            message == record_batch_file_error_message(*self),
    {
        match self {
            FSERecordBatchArchiveFileError::InvalidFileExtension { .. } => { "typed record batch archive path must use the .fse extension" },
            FSERecordBatchArchiveFileError::Codec(error) => { error.message() },
            FSERecordBatchArchiveFileError::Io { operation, .. } => { match operation { FSEArchiveFileOperation::Read => "failed to read typed record batch archive file", FSEArchiveFileOperation::Write => "failed to write typed record batch archive file" } },
        }
    }
}

impl From<FSETypedRecordBatchArchiveCodecError> for FSERecordBatchArchiveFileError {
    fn from(error: FSETypedRecordBatchArchiveCodecError) -> (converted: Self) {
        FSERecordBatchArchiveFileError::Codec(error)
    }
}

impl FromSpecImpl<FSETypedRecordBatchArchiveCodecError> for FSERecordBatchArchiveFileError {
    open spec fn obeys_from_spec() -> bool {
        true
    }

    open spec fn from_spec(error: FSETypedRecordBatchArchiveCodecError) -> Self {
        FSERecordBatchArchiveFileError::Codec(error)
    }
}

/// Error returned when saving or loading a typed record batch archive fails.
#[derive(Clone, Debug, PartialEq, Eq)]
pub enum FSERecordBatchArchiveError {
    /// Typed record batch archive file access failed.
    File(FSERecordBatchArchiveFileError),
}

/// Diagnostic text of an error of type `FSERecordBatchArchiveError`.
pub open spec fn record_batch_archive_error_message(error: FSERecordBatchArchiveError) -> &'static str {
    match error {
        FSERecordBatchArchiveError::File(error) => { record_batch_file_error_message(error) },
    }
}

impl FSERecordBatchArchiveError {
    /// Returns the diagnostic message for the error.
    pub fn message(&self) -> (message: &'static str)
        ensures
            message == record_batch_archive_error_message(*self),
    {
        match self {
            FSERecordBatchArchiveError::File(error) => { error.message() },
        }
    }
}

impl From<FSERecordBatchArchiveFileError> for FSERecordBatchArchiveError {
    fn from(error: FSERecordBatchArchiveFileError) -> (converted: Self) {
        FSERecordBatchArchiveError::File(error)
    }
}

impl FromSpecImpl<FSERecordBatchArchiveFileError> for FSERecordBatchArchiveError {
    open spec fn obeys_from_spec() -> bool {
        true
    }

    open spec fn from_spec(error: FSERecordBatchArchiveFileError) -> Self {
        FSERecordBatchArchiveError::File(error)
    }
}


} // verus!
