//! Error vocabulary of the row-mapped archive byte codec.
use vstd::prelude::*;
use vstd::std_specs::convert::FromSpecImpl;

use super::archive_codec::{archive_codec_error_message, FSEArchiveCodecError};
use super::row_mapping::{row_mapped_snapshot_error_message, FSERowMappedArchiveSnapshotError};

verus! {

/// Error returned when row-mapped archive byte encoding or decoding fails.
#[derive(Clone, Debug, PartialEq, Eq)]
pub enum FSERowMappedArchiveCodecError {
    /// The row-mapped snapshot failed validation.
    Snapshot(FSERowMappedArchiveSnapshotError),
    /// The embedded index snapshot codec failed.
    IndexCodec(FSEArchiveCodecError),
    /// The byte slice ended before a complete row-mapping field could be read.
    UnexpectedEndOfArchive {
        /// Archive field being read.
        field: &'static str,
        /// Number of bytes required for the field.
        needed: usize,
        /// Number of bytes remaining in the input.
        remaining: usize,
    },
    /// The archive contained bytes after the decoded row-mapped snapshot.
    TrailingBytes {
        /// Number of unread bytes.
        remaining: usize,
    },
    /// A length field cannot be represented by this runtime.
    LengthOutOfRange {
        /// Archive field being read.
        field: &'static str,
        /// Length found in the input.
        length: u64,
    },
    /// A compact integer vector mode was not recognized.
    InvalidCompactIntegerVectorMode {
        /// Archive field being read.
        field: &'static str,
        /// Mode byte found in the input.
        mode: u8,
    },
}

/// Diagnostic text of a row-mapped codec error.
pub open spec fn row_mapped_codec_error_message(error: FSERowMappedArchiveCodecError) -> &'static str {
    match error {
        FSERowMappedArchiveCodecError::Snapshot(error) => row_mapped_snapshot_error_message(error),
        FSERowMappedArchiveCodecError::IndexCodec(error) => archive_codec_error_message(error),
        FSERowMappedArchiveCodecError::UnexpectedEndOfArchive { .. } => {
            "row-mapped archive ended before the field could be read"
        },
        FSERowMappedArchiveCodecError::TrailingBytes { .. } => {
            "row-mapped archive contains trailing bytes"
        },
        FSERowMappedArchiveCodecError::LengthOutOfRange { .. } => {
            "row-mapped archive length field is outside the runtime range"
        },
        FSERowMappedArchiveCodecError::InvalidCompactIntegerVectorMode { .. } => {
            "row-mapped archive compact integer vector mode is invalid"
        },
    }
}

impl FSERowMappedArchiveCodecError {
    /// Returns the diagnostic message for the error.
    pub fn message(&self) -> (message: &'static str)
        ensures
            message == row_mapped_codec_error_message(*self),
    {
        match self {
            FSERowMappedArchiveCodecError::Snapshot(error) => error.message(),
            FSERowMappedArchiveCodecError::IndexCodec(error) => error.message(),
            FSERowMappedArchiveCodecError::UnexpectedEndOfArchive { .. } => {
                "row-mapped archive ended before the field could be read"
            },
            FSERowMappedArchiveCodecError::TrailingBytes { .. } => {
                "row-mapped archive contains trailing bytes"
            },
            FSERowMappedArchiveCodecError::LengthOutOfRange { .. } => {
                "row-mapped archive length field is outside the runtime range"
            },
            FSERowMappedArchiveCodecError::InvalidCompactIntegerVectorMode { .. } => {
                "row-mapped archive compact integer vector mode is invalid"
            },
        }
    }
}

impl From<FSERowMappedArchiveSnapshotError> for FSERowMappedArchiveCodecError {
    fn from(error: FSERowMappedArchiveSnapshotError) -> (converted: Self) {
        FSERowMappedArchiveCodecError::Snapshot(error)
    }
}

impl FromSpecImpl<FSERowMappedArchiveSnapshotError> for FSERowMappedArchiveCodecError {
    open spec fn obeys_from_spec() -> bool {
        true
    }

    open spec fn from_spec(error: FSERowMappedArchiveSnapshotError) -> Self {
        FSERowMappedArchiveCodecError::Snapshot(error)
    }
}

impl From<FSEArchiveCodecError> for FSERowMappedArchiveCodecError {
    fn from(error: FSEArchiveCodecError) -> (converted: Self) {
        FSERowMappedArchiveCodecError::IndexCodec(error)
    }
}

impl FromSpecImpl<FSEArchiveCodecError> for FSERowMappedArchiveCodecError {
    open spec fn obeys_from_spec() -> bool {
        true
    }

    open spec fn from_spec(error: FSEArchiveCodecError) -> Self {
        FSERowMappedArchiveCodecError::IndexCodec(error)
    }
}

} // verus!
