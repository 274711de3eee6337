//! Errors of reading and writing typed query index archive files.
use vstd::prelude::*;
use vstd::std_specs::convert::FromSpecImpl;

use super::archive_file::FSEArchiveFileOperation;
use super::operations::{
    append_metadata_error_message, rebuild_plan_error_message, FSEArchiveAppendOperationMetadataError,
    FSEArchiveRebuildPlanMetadataError,
};
use super::payload::{payload_header_error_message, FSEArchivePayloadHeaderError};
use super::query_index_codec::{query_index_codec_error_message, FSETypedQueryIndexArchiveCodecError};
use super::query_index_snapshot::{
    query_index_snapshot_error_message, FSETypedQueryIndexArchiveSnapshotError,
};

use super::query_index_codec::query_index_codec_error_text;
use crate::text::owned_text;

verus! {

/// Error returned when typed query index archive file access fails.
#[derive(Clone, Debug, PartialEq, Eq)]
pub enum FSETypedQueryIndexArchiveFileError {
    /// The path does not use the `.fse` archive extension.
    InvalidFileExtension {
        /// Path provided by the caller.
        path: std::path::PathBuf,
    },
    /// Archive byte encoding or decoding failed.
    Codec(FSETypedQueryIndexArchiveCodecError),
    /// Archive payload metadata validation failed.
    Payload(FSEArchivePayloadHeaderError),
    /// A filesystem operation failed.
    Io {
        /// Operation that failed.
        operation: FSEArchiveFileOperation,
        /// Path used by the operation.
        path: std::path::PathBuf,
        /// Operating-system error kind.
        kind: std::io::ErrorKind,
    },
}

/// Diagnostic text of an error of type `FSETypedQueryIndexArchiveFileError`.
pub open spec fn query_index_file_error_message(error: FSETypedQueryIndexArchiveFileError) -> &'static str {
    match error {
        FSETypedQueryIndexArchiveFileError::InvalidFileExtension { .. } => { "typed query index archive path must use the .fse extension" },
        FSETypedQueryIndexArchiveFileError::Codec(error) => { query_index_codec_error_message(error) },
        FSETypedQueryIndexArchiveFileError::Payload(error) => { payload_header_error_message(error) },
        FSETypedQueryIndexArchiveFileError::Io { operation, .. } => { match operation { FSEArchiveFileOperation::Read => "failed to read typed query index archive file", FSEArchiveFileOperation::Write => "failed to write typed query index archive file" } },
    }
}

impl FSETypedQueryIndexArchiveFileError {
    /// Returns the diagnostic message for the error.
    pub fn message(&self) -> (message: &'static str)
        ensures
            message == query_index_file_error_message(*self),
    {
        match self {
            FSETypedQueryIndexArchiveFileError::InvalidFileExtension { .. } => { "typed query index archive path must use the .fse extension" },
            FSETypedQueryIndexArchiveFileError::Codec(error) => { error.message() },
            FSETypedQueryIndexArchiveFileError::Payload(error) => { error.message() },
            FSETypedQueryIndexArchiveFileError::Io { operation, .. } => { match operation { FSEArchiveFileOperation::Read => "failed to read typed query index archive file", FSEArchiveFileOperation::Write => "failed to write typed query index archive file" } },
        }
    }
}

/// Diagnostic text of an error of type `FSETypedQueryIndexArchiveFileError`, carrying the values that the
/// wrapped errors name.
pub open spec fn query_index_file_error_text(error: FSETypedQueryIndexArchiveFileError) -> Seq<char> {
    match error {
        FSETypedQueryIndexArchiveFileError::Codec(error) => query_index_codec_error_text(error),
        _ => query_index_file_error_message(error)@,
    }
}

impl FSETypedQueryIndexArchiveFileError {
    /// Returns the diagnostic text for the error, carrying the values that the
    /// wrapped errors name.
    pub fn description(&self) -> (text: String)
        ensures
            text@ == query_index_file_error_text(*self),
    {
        match self {
            FSETypedQueryIndexArchiveFileError::Codec(error) => error.description(),
            _ => owned_text(self.message()),
        }
    }
}

impl From<FSETypedQueryIndexArchiveCodecError> for FSETypedQueryIndexArchiveFileError {
    fn from(error: FSETypedQueryIndexArchiveCodecError) -> (converted: Self) {
        FSETypedQueryIndexArchiveFileError::Codec(error)
    }
}

impl FromSpecImpl<FSETypedQueryIndexArchiveCodecError> for FSETypedQueryIndexArchiveFileError {
    open spec fn obeys_from_spec() -> bool {
        true
    }

    open spec fn from_spec(error: FSETypedQueryIndexArchiveCodecError) -> Self {
        FSETypedQueryIndexArchiveFileError::Codec(error)
    }
}

impl From<FSEArchivePayloadHeaderError> for FSETypedQueryIndexArchiveFileError {
    fn from(error: FSEArchivePayloadHeaderError) -> (converted: Self) {
        FSETypedQueryIndexArchiveFileError::Payload(error)
    }
}

impl FromSpecImpl<FSEArchivePayloadHeaderError> for FSETypedQueryIndexArchiveFileError {
    open spec fn obeys_from_spec() -> bool {
        true
    }

    open spec fn from_spec(error: FSEArchivePayloadHeaderError) -> Self {
        FSETypedQueryIndexArchiveFileError::Payload(error)
    }
}

/// Error returned when saving or loading a typed query index archive fails.
#[derive(Clone, Debug, PartialEq, Eq)]
pub enum FSETypedQueryIndexArchiveError {
    /// Building or reconstructing a typed query index archive snapshot failed.
    Snapshot(FSETypedQueryIndexArchiveSnapshotError),
    /// Append operation metadata validation failed.
    AppendMetadata(FSEArchiveAppendOperationMetadataError),
    /// Archive rebuild plan metadata validation failed.
    RebuildPlan(FSEArchiveRebuildPlanMetadataError),
    /// Typed query index archive file access failed.
    File(FSETypedQueryIndexArchiveFileError),
}

/// Diagnostic text of an error of type `FSETypedQueryIndexArchiveError`.
pub open spec fn query_index_archive_error_message(error: FSETypedQueryIndexArchiveError) -> &'static str {
    match error {
        FSETypedQueryIndexArchiveError::Snapshot(error) => { query_index_snapshot_error_message(error) },
        FSETypedQueryIndexArchiveError::AppendMetadata(error) => { append_metadata_error_message(error) },
        FSETypedQueryIndexArchiveError::RebuildPlan(error) => { rebuild_plan_error_message(error) },
        FSETypedQueryIndexArchiveError::File(error) => { query_index_file_error_message(error) },
    }
}

impl FSETypedQueryIndexArchiveError {
    /// Returns the diagnostic message for the error.
    pub fn message(&self) -> (message: &'static str)
        ensures
            message == query_index_archive_error_message(*self),
    {
        match self {
            FSETypedQueryIndexArchiveError::Snapshot(error) => { error.message() },
            FSETypedQueryIndexArchiveError::AppendMetadata(error) => { error.message() },
            FSETypedQueryIndexArchiveError::RebuildPlan(error) => { error.message() },
            FSETypedQueryIndexArchiveError::File(error) => { error.message() },
        }
    }
}

/// Diagnostic text of an error of type `FSETypedQueryIndexArchiveError`, carrying the values that the
/// wrapped errors name.
pub open spec fn query_index_archive_error_text(error: FSETypedQueryIndexArchiveError) -> Seq<char> {
    match error {
        FSETypedQueryIndexArchiveError::File(error) => query_index_file_error_text(error),
        _ => query_index_archive_error_message(error)@,
    }
}

impl FSETypedQueryIndexArchiveError {
    /// Returns the diagnostic text for the error, carrying the values that the
    /// wrapped errors name.
    pub fn description(&self) -> (text: String)
        ensures
            text@ == query_index_archive_error_text(*self),
    {
        match self {
            FSETypedQueryIndexArchiveError::File(error) => error.description(),
            _ => owned_text(self.message()),
        }
    }
}

impl From<FSETypedQueryIndexArchiveSnapshotError> for FSETypedQueryIndexArchiveError {
    fn from(error: FSETypedQueryIndexArchiveSnapshotError) -> (converted: Self) {
        FSETypedQueryIndexArchiveError::Snapshot(error)
    }
}

impl FromSpecImpl<FSETypedQueryIndexArchiveSnapshotError> for FSETypedQueryIndexArchiveError {
    open spec fn obeys_from_spec() -> bool {
        true
    }

    open spec fn from_spec(error: FSETypedQueryIndexArchiveSnapshotError) -> Self {
        FSETypedQueryIndexArchiveError::Snapshot(error)
    }
}

impl From<FSEArchiveAppendOperationMetadataError> for FSETypedQueryIndexArchiveError {
    fn from(error: FSEArchiveAppendOperationMetadataError) -> (converted: Self) {
        FSETypedQueryIndexArchiveError::AppendMetadata(error)
    }
}

impl FromSpecImpl<FSEArchiveAppendOperationMetadataError> for FSETypedQueryIndexArchiveError {
    open spec fn obeys_from_spec() -> bool {
        true
    }

    open spec fn from_spec(error: FSEArchiveAppendOperationMetadataError) -> Self {
        FSETypedQueryIndexArchiveError::AppendMetadata(error)
    }
}

impl From<FSEArchiveRebuildPlanMetadataError> for FSETypedQueryIndexArchiveError {
    fn from(error: FSEArchiveRebuildPlanMetadataError) -> (converted: Self) {
        FSETypedQueryIndexArchiveError::RebuildPlan(error)
    }
}

impl FromSpecImpl<FSEArchiveRebuildPlanMetadataError> for FSETypedQueryIndexArchiveError {
    open spec fn obeys_from_spec() -> bool {
        true
    }

    open spec fn from_spec(error: FSEArchiveRebuildPlanMetadataError) -> Self {
        FSETypedQueryIndexArchiveError::RebuildPlan(error)
    }
}

impl From<FSETypedQueryIndexArchiveFileError> for FSETypedQueryIndexArchiveError {
    fn from(error: FSETypedQueryIndexArchiveFileError) -> (converted: Self) {
        FSETypedQueryIndexArchiveError::File(error)
    }
}

impl FromSpecImpl<FSETypedQueryIndexArchiveFileError> for FSETypedQueryIndexArchiveError {
    open spec fn obeys_from_spec() -> bool {
        true
    }

    open spec fn from_spec(error: FSETypedQueryIndexArchiveFileError) -> Self {
        FSETypedQueryIndexArchiveError::File(error)
    }
}


} // verus!
