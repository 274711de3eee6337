//! Errors of reading and writing numeric index archive files.
use vstd::prelude::*;
use vstd::std_specs::convert::FromSpecImpl;

use super::archive_codec::{archive_codec_error_message, FSEArchiveCodecError};
use super::archive_file::FSEArchiveFileOperation;
use super::snapshot::{archive_snapshot_error_message, FSEArchiveSnapshotError};

verus! {

/// Error returned when archive file access fails.
#[derive(Clone, Debug, PartialEq, Eq)]
pub enum FSEArchiveFileError {
    /// The path does not use the `.fse` archive extension.
    InvalidFileExtension {
        /// Path provided by the caller.
        path: std::path::PathBuf,
    },
    /// Archive byte encoding or decoding failed.
    Codec(FSEArchiveCodecError),
    /// A filesystem operation failed.
    Io {
        /// Operation that failed.
        operation: FSEArchiveFileOperation,
        /// Path used by the operation.
        path: std::path::PathBuf,
        /// Operating-system error kind.
        kind: std::io::ErrorKind,
    },
}

/// Diagnostic text of an error of type `FSEArchiveFileError`.
pub open spec fn archive_file_error_message(error: FSEArchiveFileError) -> &'static str {
    match error {
        FSEArchiveFileError::InvalidFileExtension { .. } => { "archive path must use the .fse extension" },
        FSEArchiveFileError::Codec(error) => { archive_codec_error_message(error) },
        FSEArchiveFileError::Io { operation, .. } => { match operation { FSEArchiveFileOperation::Read => "failed to read FSE archive file", FSEArchiveFileOperation::Write => "failed to write FSE archive file" } },
    }
}

impl FSEArchiveFileError {
    /// Returns the diagnostic message for the error.
    pub fn message(&self) -> (message: &'static str)
        ensures
            message == archive_file_error_message(*self),
    {
        match self {
            FSEArchiveFileError::InvalidFileExtension { .. } => { "archive path must use the .fse extension" },
            FSEArchiveFileError::Codec(error) => { error.message() },
            FSEArchiveFileError::Io { operation, .. } => { match operation { FSEArchiveFileOperation::Read => "failed to read FSE archive file", FSEArchiveFileOperation::Write => "failed to write FSE archive file" } },
        }
    }
}

impl From<FSEArchiveCodecError> for FSEArchiveFileError {
    fn from(error: FSEArchiveCodecError) -> (converted: Self) {
        FSEArchiveFileError::Codec(error)
    }
}

impl FromSpecImpl<FSEArchiveCodecError> for FSEArchiveFileError {
    open spec fn obeys_from_spec() -> bool {
        true
    }

    open spec fn from_spec(error: FSEArchiveCodecError) -> Self {
        FSEArchiveFileError::Codec(error)
    }
}

/// Error returned when saving or loading an FSE index archive fails.
#[derive(Clone, Debug, PartialEq, Eq)]
pub enum FSEIndexArchiveError {
    /// Building or reconstructing an archive snapshot failed.
    Snapshot(FSEArchiveSnapshotError),
    /// Archive file access failed.
    File(FSEArchiveFileError),
}

/// Diagnostic text of an error of type `FSEIndexArchiveError`.
pub open spec fn index_archive_error_message(error: FSEIndexArchiveError) -> &'static str {
    match error {
        FSEIndexArchiveError::Snapshot(error) => { archive_snapshot_error_message(error) },
        FSEIndexArchiveError::File(error) => { archive_file_error_message(error) },
    }
}

impl FSEIndexArchiveError {
    /// Returns the diagnostic message for the error.
    pub fn message(&self) -> (message: &'static str)
        ensures
            message == index_archive_error_message(*self),
    {
        match self {
            FSEIndexArchiveError::Snapshot(error) => { error.message() },
            FSEIndexArchiveError::File(error) => { error.message() },
        }
    }
}

impl From<FSEArchiveSnapshotError> for FSEIndexArchiveError {
    fn from(error: FSEArchiveSnapshotError) -> (converted: Self) {
        FSEIndexArchiveError::Snapshot(error)
    }
}

impl FromSpecImpl<FSEArchiveSnapshotError> for FSEIndexArchiveError {
    open spec fn obeys_from_spec() -> bool {
        true
    }

    open spec fn from_spec(error: FSEArchiveSnapshotError) -> Self {
        FSEIndexArchiveError::Snapshot(error)
    }
}

impl From<FSEArchiveFileError> for FSEIndexArchiveError {
    fn from(error: FSEArchiveFileError) -> (converted: Self) {
        FSEIndexArchiveError::File(error)
    }
}

impl FromSpecImpl<FSEArchiveFileError> for FSEIndexArchiveError {
    open spec fn obeys_from_spec() -> bool {
        true
    }

    open spec fn from_spec(error: FSEArchiveFileError) -> Self {
        FSEIndexArchiveError::File(error)
    }
}


} // verus!
