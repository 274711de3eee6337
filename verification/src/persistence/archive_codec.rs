//! Error vocabulary of the numeric index archive byte codec.
use vstd::prelude::*;
use vstd::std_specs::convert::FromSpecImpl;

use super::snapshot::{archive_snapshot_error_message, FSEArchiveSnapshotError};

verus! {

/// Error returned when archive byte encoding or decoding fails.
#[derive(Clone, Debug, PartialEq, Eq)]
pub enum FSEArchiveCodecError {
    /// The snapshot failed archive validation.
    Snapshot(FSEArchiveSnapshotError),
    /// The byte slice ended before a complete archive field could be read.
    UnexpectedEndOfArchive {
        /// Archive field being read.
        field: &'static str,
        /// Number of bytes required for the field.
        needed: usize,
        /// Number of bytes remaining in the input.
        remaining: usize,
    },
    /// A string field was not valid UTF-8.
    InvalidUtf8 {
        /// Archive field being read.
        field: &'static str,
        /// Raw bytes found for the field.
        bytes: Vec<u8>,
    },
    /// A boolean field contained a value other than `0` or `1`.
    InvalidBoolean {
        /// Archive field being read.
        field: &'static str,
        /// Raw boolean value found in the input.
        value: u8,
    },
    /// The archive contained bytes after the decoded snapshot.
    TrailingBytes {
        /// Number of unread bytes.
        remaining: usize,
    },
    /// A length field cannot be represented by this runtime.
    LengthOutOfRange {
        /// Archive field being read.
        field: &'static str,
        /// Length found in the input.
        length: u64,
    },
    /// A compact scalar vector mode was not recognized.
    InvalidCompactScalarVectorMode {
        /// Archive field being read.
        field: &'static str,
        /// Mode byte found in the input.
        mode: u8,
    },
    /// A compact scalar byte-plane mode was not recognized.
    InvalidCompactScalarBytePlaneMode {
        /// Archive field being read.
        field: &'static str,
        /// Mode byte found in the input.
        mode: u8,
    },
    /// A compact integer vector mode was not recognized.
    InvalidCompactIntegerVectorMode {
        /// Archive field being read.
        field: &'static str,
        /// Mode byte found in the input.
        mode: u8,
    },
}

/// Diagnostic text of an archive codec error.
pub open spec fn archive_codec_error_message(error: FSEArchiveCodecError) -> &'static str {
    match error {
        FSEArchiveCodecError::Snapshot(error) => archive_snapshot_error_message(error),
        FSEArchiveCodecError::UnexpectedEndOfArchive { .. } => {
            "archive ended before the field could be read"
        },
        FSEArchiveCodecError::InvalidUtf8 { .. } => "archive string field is not valid UTF-8",
        FSEArchiveCodecError::InvalidBoolean { .. } => "archive boolean field must be 0 or 1",
        FSEArchiveCodecError::TrailingBytes { .. } => "archive contains trailing bytes",
        FSEArchiveCodecError::LengthOutOfRange { .. } => {
            "archive length field is outside the runtime range"
        },
        FSEArchiveCodecError::InvalidCompactScalarVectorMode { .. } => {
            "archive compact scalar vector mode is invalid"
        },
        FSEArchiveCodecError::InvalidCompactScalarBytePlaneMode { .. } => {
            "archive compact scalar byte-plane mode is invalid"
        },
        FSEArchiveCodecError::InvalidCompactIntegerVectorMode { .. } => {
            "archive compact integer vector mode is invalid"
        },
    }
}

impl FSEArchiveCodecError {
    /// Returns the diagnostic message for the error.
    pub fn message(&self) -> (message: &'static str)
        ensures
            message == archive_codec_error_message(*self),
    {
        match self {
            FSEArchiveCodecError::Snapshot(error) => error.message(),
            FSEArchiveCodecError::UnexpectedEndOfArchive { .. } => {
                "archive ended before the field could be read"
            },
            FSEArchiveCodecError::InvalidUtf8 { .. } => "archive string field is not valid UTF-8",
            FSEArchiveCodecError::InvalidBoolean { .. } => "archive boolean field must be 0 or 1",
            FSEArchiveCodecError::TrailingBytes { .. } => "archive contains trailing bytes",
            FSEArchiveCodecError::LengthOutOfRange { .. } => {
                "archive length field is outside the runtime range"
            },
            FSEArchiveCodecError::InvalidCompactScalarVectorMode { .. } => {
                "archive compact scalar vector mode is invalid"
            },
            FSEArchiveCodecError::InvalidCompactScalarBytePlaneMode { .. } => {
                "archive compact scalar byte-plane mode is invalid"
            },
            FSEArchiveCodecError::InvalidCompactIntegerVectorMode { .. } => {
                "archive compact integer vector mode is invalid"
            },
        }
    }
}

impl From<FSEArchiveSnapshotError> for FSEArchiveCodecError {
    fn from(error: FSEArchiveSnapshotError) -> (converted: Self) {
        FSEArchiveCodecError::Snapshot(error)
    }
}

impl FromSpecImpl<FSEArchiveSnapshotError> for FSEArchiveCodecError {
    open spec fn obeys_from_spec() -> bool {
        true
    }

    open spec fn from_spec(error: FSEArchiveSnapshotError) -> Self {
        FSEArchiveCodecError::Snapshot(error)
    }
}

} // verus!
