//! Errors of reading and writing row-mapped index archive files.
use vstd::prelude::*;
use vstd::std_specs::convert::FromSpecImpl;

use super::archive_file::FSEArchiveFileOperation;
use super::payload::{payload_header_error_message, FSEArchivePayloadHeaderError};
use super::row_mapped_codec::{row_mapped_codec_error_message, FSERowMappedArchiveCodecError};
use super::row_mapping::{row_mapped_snapshot_error_message, FSERowMappedArchiveSnapshotError};

verus! {

/// Error returned when row-mapped archive file access fails.
#[derive(Clone, Debug, PartialEq, Eq)]
pub enum FSERowMappedArchiveFileError {
    /// The path does not use the `.fse` archive extension.
    InvalidFileExtension {
        /// Path provided by the caller.
        path: std::path::PathBuf,
    },
    /// Archive byte encoding or decoding failed.
    Codec(FSERowMappedArchiveCodecError),
    /// Archive payload metadata validation failed.
    Payload(FSEArchivePayloadHeaderError),
    /// A filesystem operation failed.
    Io {
        /// Operation that failed.
        operation: FSEArchiveFileOperation,
        /// Path used by the operation.
        path: std::path::PathBuf,
        /// Operating-system error kind.
        kind: std::io::ErrorKind,
    },
}

/// Diagnostic text of an error of type `FSERowMappedArchiveFileError`.
pub open spec fn row_mapped_file_error_message(error: FSERowMappedArchiveFileError) -> &'static str {
    match error {
        FSERowMappedArchiveFileError::InvalidFileExtension { .. } => { "row-mapped archive path must use the .fse extension" },
        FSERowMappedArchiveFileError::Codec(error) => { row_mapped_codec_error_message(error) },
        FSERowMappedArchiveFileError::Payload(error) => { payload_header_error_message(error) },
        FSERowMappedArchiveFileError::Io { operation, .. } => { match operation { FSEArchiveFileOperation::Read => "failed to read row-mapped FSE archive file", FSEArchiveFileOperation::Write => "failed to write row-mapped FSE archive file" } },
    }
}

impl FSERowMappedArchiveFileError {
    /// Returns the diagnostic message for the error.
    pub fn message(&self) -> (message: &'static str)
        ensures
            message == row_mapped_file_error_message(*self),
    {
        match self {
            FSERowMappedArchiveFileError::InvalidFileExtension { .. } => { "row-mapped archive path must use the .fse extension" },
            FSERowMappedArchiveFileError::Codec(error) => { error.message() },
            FSERowMappedArchiveFileError::Payload(error) => { error.message() },
            FSERowMappedArchiveFileError::Io { operation, .. } => { match operation { FSEArchiveFileOperation::Read => "failed to read row-mapped FSE archive file", FSEArchiveFileOperation::Write => "failed to write row-mapped FSE archive file" } },
        }
    }
}

impl From<FSERowMappedArchiveCodecError> for FSERowMappedArchiveFileError {
    fn from(error: FSERowMappedArchiveCodecError) -> (converted: Self) {
        FSERowMappedArchiveFileError::Codec(error)
    }
}

impl FromSpecImpl<FSERowMappedArchiveCodecError> for FSERowMappedArchiveFileError {
    open spec fn obeys_from_spec() -> bool {
        true
    }

    open spec fn from_spec(error: FSERowMappedArchiveCodecError) -> Self {
        FSERowMappedArchiveFileError::Codec(error)
    }
}

impl From<FSEArchivePayloadHeaderError> for FSERowMappedArchiveFileError {
    fn from(error: FSEArchivePayloadHeaderError) -> (converted: Self) {
        FSERowMappedArchiveFileError::Payload(error)
    }
}

impl FromSpecImpl<FSEArchivePayloadHeaderError> for FSERowMappedArchiveFileError {
    open spec fn obeys_from_spec() -> bool {
        true
    }

    open spec fn from_spec(error: FSEArchivePayloadHeaderError) -> Self {
        FSERowMappedArchiveFileError::Payload(error)
    }
}

/// Error returned when saving or loading a row-mapped FSE index archive fails.
#[derive(Clone, Debug, PartialEq, Eq)]
pub enum FSERowMappedIndexArchiveError {
    /// Building or reconstructing a row-mapped archive snapshot failed.
    Snapshot(FSERowMappedArchiveSnapshotError),
    /// Row-mapped archive file access failed.
    File(FSERowMappedArchiveFileError),
}

/// Diagnostic text of an error of type `FSERowMappedIndexArchiveError`.
pub open spec fn row_mapped_index_archive_error_message(error: FSERowMappedIndexArchiveError) -> &'static str {
    match error {
        FSERowMappedIndexArchiveError::Snapshot(error) => { row_mapped_snapshot_error_message(error) },
        FSERowMappedIndexArchiveError::File(error) => { row_mapped_file_error_message(error) },
    }
}

impl FSERowMappedIndexArchiveError {
    /// Returns the diagnostic message for the error.
    pub fn message(&self) -> (message: &'static str)
        ensures
            message == row_mapped_index_archive_error_message(*self),
    {
        match self {
            FSERowMappedIndexArchiveError::Snapshot(error) => { error.message() },
            FSERowMappedIndexArchiveError::File(error) => { error.message() },
        }
    }
}

impl From<FSERowMappedArchiveSnapshotError> for FSERowMappedIndexArchiveError {
    fn from(error: FSERowMappedArchiveSnapshotError) -> (converted: Self) {
        FSERowMappedIndexArchiveError::Snapshot(error)
    }
}

impl FromSpecImpl<FSERowMappedArchiveSnapshotError> for FSERowMappedIndexArchiveError {
    open spec fn obeys_from_spec() -> bool {
        true
    }

    open spec fn from_spec(error: FSERowMappedArchiveSnapshotError) -> Self {
        FSERowMappedIndexArchiveError::Snapshot(error)
    }
}

impl From<FSERowMappedArchiveFileError> for FSERowMappedIndexArchiveError {
    fn from(error: FSERowMappedArchiveFileError) -> (converted: Self) {
        FSERowMappedIndexArchiveError::File(error)
    }
}

impl FromSpecImpl<FSERowMappedArchiveFileError> for FSERowMappedIndexArchiveError {
    open spec fn obeys_from_spec() -> bool {
        true
    }

    open spec fn from_spec(error: FSERowMappedArchiveFileError) -> Self {
        FSERowMappedIndexArchiveError::File(error)
    }
}


} // verus!
