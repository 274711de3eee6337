//! Archive operation metadata and maintenance policy for FSE archives.
use vstd::prelude::*;
use vstd::std_specs::convert::FromSpecImpl;

use super::manifest::{manifest_error, manifest_error_message, FSEArchiveManifest, FSEArchiveManifestError};
use super::payload::FSEArchivePayloadKind;

verus! {

// ---------------------------------------------------------------------------
// Append operation metadata
// ---------------------------------------------------------------------------

/// Error returned when archive append operation metadata is invalid.
#[derive(Clone, Debug, PartialEq, Eq)]
pub enum FSEArchiveAppendOperationMetadataError {
    /// The source archive manifest is invalid.
    Manifest(FSEArchiveManifestError),
    /// The source archive record count was zero.
    ZeroBaseRecordCount,
    /// The append batch record count was zero.
    ZeroAppendedRecordCount,
    /// Adding the source and append record counts overflowed.
    ResultingRecordCountOverflow {
        /// Number of records in the source archive.
        base_record_count: u64,
        /// Number of records in the append batch.
        appended_record_count: u64,
    },
    /// The resulting record count did not match the source and append counts.
    ResultingRecordCountMismatch {
        /// Number of records in the source archive.
        base_record_count: u64,
        /// Number of records in the append batch.
        appended_record_count: u64,
        /// Resulting record count stored in the metadata.
        resulting_record_count: u64,
        /// Resulting record count computed from the source and append counts.
        expected_resulting_record_count: u64,
    },
}

/// Diagnostic text of an error of type `FSEArchiveAppendOperationMetadataError`.
pub open spec fn append_metadata_error_message(error: FSEArchiveAppendOperationMetadataError) -> &'static str {
    match error {
        FSEArchiveAppendOperationMetadataError::Manifest(error) => manifest_error_message(error),
        FSEArchiveAppendOperationMetadataError::ZeroBaseRecordCount => {
            "append operation base record count must be greater than zero"
        },
        FSEArchiveAppendOperationMetadataError::ZeroAppendedRecordCount => {
            "append operation record count must be greater than zero"
        },
        FSEArchiveAppendOperationMetadataError::ResultingRecordCountOverflow { .. } => {
            "append operation resulting record count overflowed"
        },
        FSEArchiveAppendOperationMetadataError::ResultingRecordCountMismatch { .. } => {
            "append operation resulting record count must equal base records plus appended records"
        },
    }
}

impl FSEArchiveAppendOperationMetadataError {
    /// Returns the diagnostic message for the error.
    pub fn message(&self) -> (message: &'static str)
        ensures
            message == append_metadata_error_message(*self),
    {
        match self {
            FSEArchiveAppendOperationMetadataError::Manifest(error) => error.message(),
            FSEArchiveAppendOperationMetadataError::ZeroBaseRecordCount => {
                "append operation base record count must be greater than zero"
            },
            FSEArchiveAppendOperationMetadataError::ZeroAppendedRecordCount => {
                "append operation record count must be greater than zero"
            },
            FSEArchiveAppendOperationMetadataError::ResultingRecordCountOverflow { .. } => {
                "append operation resulting record count overflowed"
            },
            FSEArchiveAppendOperationMetadataError::ResultingRecordCountMismatch { .. } => {
                "append operation resulting record count must equal base records plus appended records"
            },
        }
    }
}

impl From<FSEArchiveManifestError> for FSEArchiveAppendOperationMetadataError {
    fn from(error: FSEArchiveManifestError) -> (converted: Self) {
        FSEArchiveAppendOperationMetadataError::Manifest(error)
    }
}

impl FromSpecImpl<FSEArchiveManifestError> for FSEArchiveAppendOperationMetadataError {
    open spec fn obeys_from_spec() -> bool {
        true
    }

    open spec fn from_spec(error: FSEArchiveManifestError) -> Self {
        FSEArchiveAppendOperationMetadataError::Manifest(error)
    }
}

/// Checked metadata for an archive append operation.
///
/// The metadata records the logical record-count transition before archive
/// rebuild or compaction logic is applied.
#[derive(Clone, Copy, Debug, PartialEq, Eq, Structural)]
pub struct FSEArchiveAppendOperationMetadata {
    /// Payload kind of the source archive.
    pub payload_kind: FSEArchivePayloadKind,
    /// Number of records in the source archive.
    pub base_record_count: u64,
    /// Number of records in the append batch.
    pub appended_record_count: u64,
    /// Number of records expected after the append operation.
    pub resulting_record_count: u64,
}

/// The first failing check of append metadata, or `None` when it is valid.
pub open spec fn append_metadata_error(metadata: FSEArchiveAppendOperationMetadata) -> Option<
    FSEArchiveAppendOperationMetadataError,
> {
    let base = metadata.base_record_count;
    let appended = metadata.appended_record_count;
    if base == 0 {
        Some(FSEArchiveAppendOperationMetadataError::ZeroBaseRecordCount)
    } else if appended == 0 {
        Some(FSEArchiveAppendOperationMetadataError::ZeroAppendedRecordCount)
    } else if base + appended > u64::MAX {
        Some(
            FSEArchiveAppendOperationMetadataError::ResultingRecordCountOverflow {
                base_record_count: base,
                appended_record_count: appended,
            },
        )
    } else if metadata.resulting_record_count != base + appended {
        Some(
            FSEArchiveAppendOperationMetadataError::ResultingRecordCountMismatch {
                base_record_count: base,
                appended_record_count: appended,
                resulting_record_count: metadata.resulting_record_count,
                expected_resulting_record_count: (base + appended) as u64,
            },
        )
    } else {
        None
    }
}

/// What `FSEArchiveAppendOperationMetadata::try_new` yields for the given counts.
pub open spec fn append_metadata_from_counts(
    payload_kind: FSEArchivePayloadKind,
    base_record_count: u64,
    appended_record_count: u64,
) -> Result<FSEArchiveAppendOperationMetadata, FSEArchiveAppendOperationMetadataError> {
    if base_record_count + appended_record_count > u64::MAX {
        Err(
            FSEArchiveAppendOperationMetadataError::ResultingRecordCountOverflow {
                base_record_count,
                appended_record_count,
            },
        )
    } else if base_record_count == 0 {
        Err(FSEArchiveAppendOperationMetadataError::ZeroBaseRecordCount)
    } else if appended_record_count == 0 {
        Err(FSEArchiveAppendOperationMetadataError::ZeroAppendedRecordCount)
    } else {
        Ok(
            FSEArchiveAppendOperationMetadata {
                payload_kind,
                base_record_count,
                appended_record_count,
                resulting_record_count: (base_record_count + appended_record_count) as u64,
            },
        )
    }
}

fn checked_resulting_record_count(base_record_count: u64, appended_record_count: u64) -> (result:
    Result<u64, FSEArchiveAppendOperationMetadataError>)
    ensures
        base_record_count + appended_record_count <= u64::MAX ==> result == Ok::<
            u64,
            FSEArchiveAppendOperationMetadataError,
        >((base_record_count + appended_record_count) as u64),
        base_record_count + appended_record_count > u64::MAX ==> result == Err::<
            u64,
            FSEArchiveAppendOperationMetadataError,
        >(
            FSEArchiveAppendOperationMetadataError::ResultingRecordCountOverflow {
                base_record_count,
                appended_record_count,
            },
        ),
{
    match base_record_count.checked_add(appended_record_count) {
        Some(total) => Ok(total),
        None => Err(
            FSEArchiveAppendOperationMetadataError::ResultingRecordCountOverflow {
                base_record_count,
                appended_record_count,
            },
        ),
    }
}

impl FSEArchiveAppendOperationMetadata {
    /// Creates append metadata and returns an error when counts are invalid.
    pub fn try_new(
        payload_kind: FSEArchivePayloadKind,
        base_record_count: u64,
        appended_record_count: u64,
    ) -> (result: Result<Self, FSEArchiveAppendOperationMetadataError>)
        ensures
            result == append_metadata_from_counts(
                payload_kind,
                base_record_count,
                appended_record_count,
            ),
            result matches Ok(metadata) ==> append_metadata_error(metadata) is None,
    {
        let resulting_record_count = match checked_resulting_record_count(
            base_record_count,
            appended_record_count,
        ) {
            Ok(total) => total,
            Err(error) => return Err(error),
        };
        let metadata = FSEArchiveAppendOperationMetadata {
            payload_kind,
            base_record_count,
            appended_record_count,
            resulting_record_count,
        };
        match metadata.validate() {
            Ok(()) => Ok(metadata),
            Err(error) => Err(error),
        }
    }

    /// Creates append metadata from a validated archive manifest.
    pub fn from_manifest(
        payload_kind: FSEArchivePayloadKind,
        manifest: &FSEArchiveManifest,
        appended_record_count: u64,
    ) -> (result: Result<Self, FSEArchiveAppendOperationMetadataError>)
        ensures
            match manifest_error(*manifest) {
                Some(error) => result == Err::<Self, FSEArchiveAppendOperationMetadataError>(
                    FSEArchiveAppendOperationMetadataError::Manifest(error),
                ),
                None => result == append_metadata_from_counts(
                    payload_kind,
                    manifest.record_count,
                    appended_record_count,
                ),
            },
    {
        match manifest.validate() {
            Ok(()) => {},
            Err(error) => return Err(FSEArchiveAppendOperationMetadataError::Manifest(error)),
        }
        Self::try_new(payload_kind, manifest.record_count, appended_record_count)
    }

    /// Validates append operation metadata.
    pub fn validate(&self) -> (result: Result<(), FSEArchiveAppendOperationMetadataError>)
        ensures
            match append_metadata_error(*self) {
                None => result is Ok,
                Some(error) => result == Err::<(), FSEArchiveAppendOperationMetadataError>(error),
            },
    {
        if self.base_record_count == 0 {
            return Err(FSEArchiveAppendOperationMetadataError::ZeroBaseRecordCount);
        }
        if self.appended_record_count == 0 {
            return Err(FSEArchiveAppendOperationMetadataError::ZeroAppendedRecordCount);
        }
        let expected_resulting_record_count = match checked_resulting_record_count(
            self.base_record_count,
            self.appended_record_count,
        ) {
            Ok(total) => total,
            Err(error) => return Err(error),
        };
        if self.resulting_record_count != expected_resulting_record_count {
            return Err(
                FSEArchiveAppendOperationMetadataError::ResultingRecordCountMismatch {
                    base_record_count: self.base_record_count,
                    appended_record_count: self.appended_record_count,
                    resulting_record_count: self.resulting_record_count,
                    expected_resulting_record_count,
                },
            );
        }
        Ok(())
    }
}

// ---------------------------------------------------------------------------
// Compaction operation metadata
// ---------------------------------------------------------------------------

/// Error returned when archive compaction operation metadata is invalid.
#[derive(Clone, Debug, PartialEq, Eq)]
pub enum FSEArchiveCompactionOperationMetadataError {
    /// The source archive manifest is invalid.
    Manifest(FSEArchiveManifestError),
    /// The source archive record count was zero.
    ZeroBaseRecordCount,
    /// The compaction tombstone count was zero.
    ZeroTombstoneCount,
    /// The removed record count exceeded the source record count.
    RemovedRecordCountExceedsBase {
        /// Number of records in the source archive.
        base_record_count: u64,
        /// Number of source records removed by compaction.
        removed_record_count: u64,
    },
    /// Compaction would retain no records.
    EmptyRetainedRecordSet {
        /// Number of records in the source archive.
        base_record_count: u64,
        /// Number of source records removed by compaction.
        removed_record_count: u64,
    },
    /// The retained record count did not match the source and removed counts.
    RetainedRecordCountMismatch {
        /// Number of records in the source archive.
        base_record_count: u64,
        /// Number of source records removed by compaction.
        removed_record_count: u64,
        /// Retained record count stored in the metadata.
        retained_record_count: u64,
        /// Retained record count computed from source and removed counts.
        expected_retained_record_count: u64,
    },
}

/// Diagnostic text of an error of type `FSEArchiveCompactionOperationMetadataError`.
pub open spec fn compaction_metadata_error_message(error: FSEArchiveCompactionOperationMetadataError) -> &'static str {
    match error {
        FSEArchiveCompactionOperationMetadataError::Manifest(error) => manifest_error_message(error),
        FSEArchiveCompactionOperationMetadataError::ZeroBaseRecordCount => {
            "compaction operation base record count must be greater than zero"
        },
        FSEArchiveCompactionOperationMetadataError::ZeroTombstoneCount => {
            "compaction operation tombstone count must be greater than zero"
        },
        FSEArchiveCompactionOperationMetadataError::RemovedRecordCountExceedsBase { .. } => {
            "compaction operation removed record count cannot exceed base record count"
        },
        FSEArchiveCompactionOperationMetadataError::EmptyRetainedRecordSet { .. } => {
            "compaction operation retained no records"
        },
        FSEArchiveCompactionOperationMetadataError::RetainedRecordCountMismatch { .. } => {
            "compaction operation retained record count must equal base records minus removed records"
        },
    }
}

impl FSEArchiveCompactionOperationMetadataError {
    /// Returns the diagnostic message for the error.
    pub fn message(&self) -> (message: &'static str)
        ensures
            message == compaction_metadata_error_message(*self),
    {
        match self {
            FSEArchiveCompactionOperationMetadataError::Manifest(error) => error.message(),
            FSEArchiveCompactionOperationMetadataError::ZeroBaseRecordCount => {
                "compaction operation base record count must be greater than zero"
            },
            FSEArchiveCompactionOperationMetadataError::ZeroTombstoneCount => {
                "compaction operation tombstone count must be greater than zero"
            },
            FSEArchiveCompactionOperationMetadataError::RemovedRecordCountExceedsBase { .. } => {
                "compaction operation removed record count cannot exceed base record count"
            },
            FSEArchiveCompactionOperationMetadataError::EmptyRetainedRecordSet { .. } => {
                "compaction operation retained no records"
            },
            FSEArchiveCompactionOperationMetadataError::RetainedRecordCountMismatch { .. } => {
                "compaction operation retained record count must equal base records minus removed records"
            },
        }
    }
}

impl From<FSEArchiveManifestError> for FSEArchiveCompactionOperationMetadataError {
    fn from(error: FSEArchiveManifestError) -> (converted: Self) {
        FSEArchiveCompactionOperationMetadataError::Manifest(error)
    }
}

impl FromSpecImpl<FSEArchiveManifestError> for FSEArchiveCompactionOperationMetadataError {
    open spec fn obeys_from_spec() -> bool {
        true
    }

    open spec fn from_spec(error: FSEArchiveManifestError) -> Self {
        FSEArchiveCompactionOperationMetadataError::Manifest(error)
    }
}

/// Checked metadata for an archive compaction operation.
///
/// The metadata records the logical record-count transition when tombstones are
/// applied to a persisted archive.
#[derive(Clone, Copy, Debug, PartialEq, Eq, Structural)]
pub struct FSEArchiveCompactionOperationMetadata {
    /// Payload kind of the source archive.
    pub payload_kind: FSEArchivePayloadKind,
    /// Number of records in the source archive.
    pub base_record_count: u64,
    /// Number of tombstones used by the compaction operation.
    pub tombstone_count: u64,
    /// Number of source records removed by compaction.
    pub removed_record_count: u64,
    /// Number of source records retained after compaction.
    pub retained_record_count: u64,
}

/// The first failing check of compaction metadata, or `None` when it is valid.
pub open spec fn compaction_metadata_error(metadata: FSEArchiveCompactionOperationMetadata) -> Option<
    FSEArchiveCompactionOperationMetadataError,
> {
    let base = metadata.base_record_count;
    let removed = metadata.removed_record_count;
    if base == 0 {
        Some(FSEArchiveCompactionOperationMetadataError::ZeroBaseRecordCount)
    } else if metadata.tombstone_count == 0 {
        Some(FSEArchiveCompactionOperationMetadataError::ZeroTombstoneCount)
    } else if removed > base {
        Some(
            FSEArchiveCompactionOperationMetadataError::RemovedRecordCountExceedsBase {
                base_record_count: base,
                removed_record_count: removed,
            },
        )
    } else if base - removed == 0 {
        Some(
            FSEArchiveCompactionOperationMetadataError::EmptyRetainedRecordSet {
                base_record_count: base,
                removed_record_count: removed,
            },
        )
    } else if metadata.retained_record_count != base - removed {
        Some(
            FSEArchiveCompactionOperationMetadataError::RetainedRecordCountMismatch {
                base_record_count: base,
                removed_record_count: removed,
                retained_record_count: metadata.retained_record_count,
                expected_retained_record_count: (base - removed) as u64,
            },
        )
    } else {
        None
    }
}

/// The compaction metadata that `try_new` builds before validating it.
pub open spec fn compaction_metadata_candidate(
    payload_kind: FSEArchivePayloadKind,
    base_record_count: u64,
    tombstone_count: u64,
    removed_record_count: u64,
) -> FSEArchiveCompactionOperationMetadata {
    FSEArchiveCompactionOperationMetadata {
        payload_kind,
        base_record_count,
        tombstone_count,
        removed_record_count,
        retained_record_count: if removed_record_count > base_record_count {
            0
        } else {
            (base_record_count - removed_record_count) as u64
        },
    }
}

/// What `FSEArchiveCompactionOperationMetadata::try_new` yields for the given counts.
pub open spec fn compaction_metadata_from_counts(
    payload_kind: FSEArchivePayloadKind,
    base_record_count: u64,
    tombstone_count: u64,
    removed_record_count: u64,
) -> Result<FSEArchiveCompactionOperationMetadata, FSEArchiveCompactionOperationMetadataError> {
    let candidate = compaction_metadata_candidate(
        payload_kind,
        base_record_count,
        tombstone_count,
        removed_record_count,
    );
    match compaction_metadata_error(candidate) {
        None => Ok(candidate),
        Some(error) => Err(error),
    }
}

fn checked_retained_record_count(base_record_count: u64, removed_record_count: u64) -> (result:
    Result<u64, FSEArchiveCompactionOperationMetadataError>)
    ensures
        removed_record_count <= base_record_count ==> result == Ok::<
            u64,
            FSEArchiveCompactionOperationMetadataError,
        >((base_record_count - removed_record_count) as u64),
        removed_record_count > base_record_count ==> result == Err::<
            u64,
            FSEArchiveCompactionOperationMetadataError,
        >(
            FSEArchiveCompactionOperationMetadataError::RemovedRecordCountExceedsBase {
                base_record_count,
                removed_record_count,
            },
        ),
{
    match base_record_count.checked_sub(removed_record_count) {
        Some(retained) => Ok(retained),
        None => Err(
            FSEArchiveCompactionOperationMetadataError::RemovedRecordCountExceedsBase {
                base_record_count,
                removed_record_count,
            },
        ),
    }
}

impl FSEArchiveCompactionOperationMetadata {
    /// Creates compaction metadata and returns an error when counts are invalid.
    pub fn try_new(
        payload_kind: FSEArchivePayloadKind,
        base_record_count: u64,
        tombstone_count: u64,
        removed_record_count: u64,
    ) -> (result: Result<Self, FSEArchiveCompactionOperationMetadataError>)
        ensures
            result == compaction_metadata_from_counts(
                payload_kind,
                base_record_count,
                tombstone_count,
                removed_record_count,
            ),
            result matches Ok(metadata) ==> compaction_metadata_error(metadata) is None,
    {
        let retained_record_count = base_record_count.saturating_sub(removed_record_count);
        let metadata = FSEArchiveCompactionOperationMetadata {
            payload_kind,
            base_record_count,
            tombstone_count,
            removed_record_count,
            retained_record_count,
        };
        match metadata.validate() {
            Ok(()) => Ok(metadata),
            Err(error) => Err(error),
        }
    }

    /// Creates compaction metadata from a validated archive manifest.
    pub fn from_manifest(
        payload_kind: FSEArchivePayloadKind,
        manifest: &FSEArchiveManifest,
        tombstone_count: u64,
        removed_record_count: u64,
    ) -> (result: Result<Self, FSEArchiveCompactionOperationMetadataError>)
        ensures
            match manifest_error(*manifest) {
                Some(error) => result == Err::<Self, FSEArchiveCompactionOperationMetadataError>(
                    FSEArchiveCompactionOperationMetadataError::Manifest(error),
                ),
                None => result == compaction_metadata_from_counts(
                    payload_kind,
                    manifest.record_count,
                    tombstone_count,
                    removed_record_count,
                ),
            },
    {
        match manifest.validate() {
            Ok(()) => {},
            Err(error) => return Err(FSEArchiveCompactionOperationMetadataError::Manifest(error)),
        }
        Self::try_new(payload_kind, manifest.record_count, tombstone_count, removed_record_count)
    }

    /// Validates compaction operation metadata.
    pub fn validate(&self) -> (result: Result<(), FSEArchiveCompactionOperationMetadataError>)
        ensures
            match compaction_metadata_error(*self) {
                None => result is Ok,
                Some(error) => result == Err::<(), FSEArchiveCompactionOperationMetadataError>(
                    error,
                ),
            },
    {
        if self.base_record_count == 0 {
            return Err(FSEArchiveCompactionOperationMetadataError::ZeroBaseRecordCount);
        }
        if self.tombstone_count == 0 {
            return Err(FSEArchiveCompactionOperationMetadataError::ZeroTombstoneCount);
        }
        let expected_retained_record_count = match checked_retained_record_count(
            self.base_record_count,
            self.removed_record_count,
        ) {
            Ok(retained) => retained,
            Err(error) => return Err(error),
        };
        if expected_retained_record_count == 0 {
            return Err(
                FSEArchiveCompactionOperationMetadataError::EmptyRetainedRecordSet {
                    base_record_count: self.base_record_count,
                    removed_record_count: self.removed_record_count,
                },
            );
        }
        if self.retained_record_count != expected_retained_record_count {
            return Err(
                FSEArchiveCompactionOperationMetadataError::RetainedRecordCountMismatch {
                    base_record_count: self.base_record_count,
                    removed_record_count: self.removed_record_count,
                    retained_record_count: self.retained_record_count,
                    expected_retained_record_count,
                },
            );
        }
        Ok(())
    }
}

// ---------------------------------------------------------------------------
// Rebuild plans
// ---------------------------------------------------------------------------

/// Reason an archive rebuild is being planned.
#[derive(Clone, Copy, Debug, PartialEq, Eq, Structural)]
pub enum FSEArchiveRebuildReason {
    /// Append records into an existing archive by rebuilding the persisted index.
    Append,
    /// Compact tombstoned records by rebuilding the persisted archive.
    Compaction,
}

/// Operation metadata used to plan an archive rebuild.
#[derive(Clone, Copy, Debug, PartialEq, Eq, Structural)]
pub enum FSEArchiveRebuildOperationMetadata {
    /// Append operation metadata.
    Append(FSEArchiveAppendOperationMetadata),
    /// Compaction operation metadata.
    Compaction(FSEArchiveCompactionOperationMetadata),
}

/// Error returned when archive rebuild plan metadata is invalid.
#[derive(Clone, Debug, PartialEq, Eq)]
pub enum FSEArchiveRebuildPlanMetadataError {
    /// Append operation metadata is invalid.
    Append(FSEArchiveAppendOperationMetadataError),
    /// Compaction operation metadata is invalid.
    Compaction(FSEArchiveCompactionOperationMetadataError),
    /// The plan reason did not match the operation metadata.
    ReasonMismatch {
        /// Reason stored on the rebuild plan.
        plan_reason: FSEArchiveRebuildReason,
        /// Reason derived from the rebuild operation.
        operation_reason: FSEArchiveRebuildReason,
    },
    /// The plan payload kind did not match the operation payload kind.
    PayloadKindMismatch {
        /// Payload kind stored on the rebuild plan.
        plan_payload_kind: FSEArchivePayloadKind,
        /// Payload kind stored on the rebuild operation.
        operation_payload_kind: FSEArchivePayloadKind,
    },
    /// The plan resulting record count did not match the operation metadata.
    ResultingRecordCountMismatch {
        /// Resulting record count stored on the rebuild plan.
        plan_resulting_record_count: u64,
        /// Resulting record count derived from the rebuild operation.
        operation_resulting_record_count: u64,
    },
    /// The current plan requires a full archive rebuild.
    FullArchiveRebuildRequired {
        /// Reason for the rebuild plan.
        reason: FSEArchiveRebuildReason,
    },
}

/// Diagnostic text of an error of type `FSEArchiveRebuildPlanMetadataError`.
pub open spec fn rebuild_plan_error_message(error: FSEArchiveRebuildPlanMetadataError) -> &'static str {
    match error {
        FSEArchiveRebuildPlanMetadataError::Append(error) => append_metadata_error_message(error),
        FSEArchiveRebuildPlanMetadataError::Compaction(error) => compaction_metadata_error_message(error),
        FSEArchiveRebuildPlanMetadataError::ReasonMismatch { .. } => {
            "archive rebuild plan reason must match operation metadata"
        },
        FSEArchiveRebuildPlanMetadataError::PayloadKindMismatch { .. } => {
            "archive rebuild plan payload kind must match operation metadata"
        },
        FSEArchiveRebuildPlanMetadataError::ResultingRecordCountMismatch { .. } => {
            "archive rebuild plan resulting record count must match operation metadata"
        },
        FSEArchiveRebuildPlanMetadataError::FullArchiveRebuildRequired { .. } => {
            "archive rebuild plan requires a full archive rebuild"
        },
    }
}

impl FSEArchiveRebuildPlanMetadataError {
    /// Returns the diagnostic message for the error.
    pub fn message(&self) -> (message: &'static str)
        ensures
            message == rebuild_plan_error_message(*self),
    {
        match self {
            FSEArchiveRebuildPlanMetadataError::Append(error) => error.message(),
            FSEArchiveRebuildPlanMetadataError::Compaction(error) => error.message(),
            FSEArchiveRebuildPlanMetadataError::ReasonMismatch { .. } => {
                "archive rebuild plan reason must match operation metadata"
            },
            FSEArchiveRebuildPlanMetadataError::PayloadKindMismatch { .. } => {
                "archive rebuild plan payload kind must match operation metadata"
            },
            FSEArchiveRebuildPlanMetadataError::ResultingRecordCountMismatch { .. } => {
                "archive rebuild plan resulting record count must match operation metadata"
            },
            FSEArchiveRebuildPlanMetadataError::FullArchiveRebuildRequired { .. } => {
                "archive rebuild plan requires a full archive rebuild"
            },
        }
    }
}

impl From<FSEArchiveAppendOperationMetadataError> for FSEArchiveRebuildPlanMetadataError {
    fn from(error: FSEArchiveAppendOperationMetadataError) -> (converted: Self) {
        FSEArchiveRebuildPlanMetadataError::Append(error)
    }
}

impl FromSpecImpl<FSEArchiveAppendOperationMetadataError> for FSEArchiveRebuildPlanMetadataError {
    open spec fn obeys_from_spec() -> bool {
        true
    }

    open spec fn from_spec(error: FSEArchiveAppendOperationMetadataError) -> Self {
        FSEArchiveRebuildPlanMetadataError::Append(error)
    }
}

impl From<FSEArchiveCompactionOperationMetadataError> for FSEArchiveRebuildPlanMetadataError {
    fn from(error: FSEArchiveCompactionOperationMetadataError) -> (converted: Self) {
        FSEArchiveRebuildPlanMetadataError::Compaction(error)
    }
}

impl FromSpecImpl<FSEArchiveCompactionOperationMetadataError> for FSEArchiveRebuildPlanMetadataError {
    open spec fn obeys_from_spec() -> bool {
        true
    }

    open spec fn from_spec(error: FSEArchiveCompactionOperationMetadataError) -> Self {
        FSEArchiveRebuildPlanMetadataError::Compaction(error)
    }
}

/// The rebuild reason represented by operation metadata.
pub open spec fn operation_reason(operation: FSEArchiveRebuildOperationMetadata) -> FSEArchiveRebuildReason {
    match operation {
        FSEArchiveRebuildOperationMetadata::Append(_) => FSEArchiveRebuildReason::Append,
        FSEArchiveRebuildOperationMetadata::Compaction(_) => FSEArchiveRebuildReason::Compaction,
    }
}

/// The payload kind represented by operation metadata.
pub open spec fn operation_payload_kind(operation: FSEArchiveRebuildOperationMetadata) -> FSEArchivePayloadKind {
    match operation {
        FSEArchiveRebuildOperationMetadata::Append(metadata) => metadata.payload_kind,
        FSEArchiveRebuildOperationMetadata::Compaction(metadata) => metadata.payload_kind,
    }
}

/// The record count expected after the rebuild described by operation metadata.
pub open spec fn operation_resulting_record_count(operation: FSEArchiveRebuildOperationMetadata) -> u64 {
    match operation {
        FSEArchiveRebuildOperationMetadata::Append(metadata) => metadata.resulting_record_count,
        FSEArchiveRebuildOperationMetadata::Compaction(metadata) => metadata.retained_record_count,
    }
}

/// The validation error of operation metadata, lifted into a rebuild plan error.
pub open spec fn operation_error(operation: FSEArchiveRebuildOperationMetadata) -> Option<
    FSEArchiveRebuildPlanMetadataError,
> {
    match operation {
        FSEArchiveRebuildOperationMetadata::Append(metadata) => match append_metadata_error(
            metadata,
        ) {
            Some(error) => Some(FSEArchiveRebuildPlanMetadataError::Append(error)),
            None => None,
        },
        FSEArchiveRebuildOperationMetadata::Compaction(metadata) => match compaction_metadata_error(
            metadata,
        ) {
            Some(error) => Some(FSEArchiveRebuildPlanMetadataError::Compaction(error)),
            None => None,
        },
    }
}

impl FSEArchiveRebuildOperationMetadata {
    /// Returns the rebuild reason represented by the operation metadata.
    pub fn reason(&self) -> (reason: FSEArchiveRebuildReason)
        ensures
            reason == operation_reason(*self),
    {
        match self {
            FSEArchiveRebuildOperationMetadata::Append(_) => FSEArchiveRebuildReason::Append,
            FSEArchiveRebuildOperationMetadata::Compaction(_) => FSEArchiveRebuildReason::Compaction,
        }
    }

    /// Returns the archive payload kind represented by the operation metadata.
    pub fn payload_kind(&self) -> (kind: FSEArchivePayloadKind)
        ensures
            kind == operation_payload_kind(*self),
    {
        match self {
            FSEArchiveRebuildOperationMetadata::Append(metadata) => metadata.payload_kind,
            FSEArchiveRebuildOperationMetadata::Compaction(metadata) => metadata.payload_kind,
        }
    }

    /// Returns the record count expected after the rebuild.
    pub fn resulting_record_count(&self) -> (count: u64)
        ensures
            count == operation_resulting_record_count(*self),
    {
        match self {
            FSEArchiveRebuildOperationMetadata::Append(metadata) => metadata.resulting_record_count,
            FSEArchiveRebuildOperationMetadata::Compaction(metadata) => metadata.retained_record_count,
        }
    }

    /// Validates the operation metadata used by the rebuild plan.
    pub fn validate(&self) -> (result: Result<(), FSEArchiveRebuildPlanMetadataError>)
        ensures
            match operation_error(*self) {
                None => result is Ok,
                Some(error) => result == Err::<(), FSEArchiveRebuildPlanMetadataError>(error),
            },
    {
        match self {
            FSEArchiveRebuildOperationMetadata::Append(metadata) => match metadata.validate() {
                Ok(()) => Ok(()),
                Err(error) => Err(FSEArchiveRebuildPlanMetadataError::Append(error)),
            },
            FSEArchiveRebuildOperationMetadata::Compaction(metadata) => match metadata.validate() {
                Ok(()) => Ok(()),
                Err(error) => Err(FSEArchiveRebuildPlanMetadataError::Compaction(error)),
            },
        }
    }
}

/// Checked metadata for planning an archive rebuild.
#[derive(Clone, Copy, Debug, PartialEq, Eq, Structural)]
pub struct FSEArchiveRebuildPlanMetadata {
    /// Reason for the rebuild plan.
    pub reason: FSEArchiveRebuildReason,
    /// Payload kind of the archive being rebuilt.
    pub payload_kind: FSEArchivePayloadKind,
    /// Operation metadata that requires the rebuild.
    pub operation: FSEArchiveRebuildOperationMetadata,
    /// Whether the operation requires rebuilding the full archive.
    pub requires_full_archive_rebuild: bool,
    /// Number of records expected after the rebuild.
    pub resulting_record_count: u64,
}

/// The first failing check of a rebuild plan, or `None` when it is valid.
pub open spec fn rebuild_plan_error(plan: FSEArchiveRebuildPlanMetadata) -> Option<
    FSEArchiveRebuildPlanMetadataError,
> {
    if operation_error(plan.operation) is Some {
        operation_error(plan.operation)
    } else if plan.reason != operation_reason(plan.operation) {
        Some(
            FSEArchiveRebuildPlanMetadataError::ReasonMismatch {
                plan_reason: plan.reason,
                operation_reason: operation_reason(plan.operation),
            },
        )
    } else if plan.payload_kind != operation_payload_kind(plan.operation) {
        Some(
            FSEArchiveRebuildPlanMetadataError::PayloadKindMismatch {
                plan_payload_kind: plan.payload_kind,
                operation_payload_kind: operation_payload_kind(plan.operation),
            },
        )
    } else if plan.resulting_record_count != operation_resulting_record_count(plan.operation) {
        Some(
            FSEArchiveRebuildPlanMetadataError::ResultingRecordCountMismatch {
                plan_resulting_record_count: plan.resulting_record_count,
                operation_resulting_record_count: operation_resulting_record_count(plan.operation),
            },
        )
    } else if !plan.requires_full_archive_rebuild {
        Some(FSEArchiveRebuildPlanMetadataError::FullArchiveRebuildRequired { reason: plan.reason })
    } else {
        None
    }
}

/// The full-rebuild plan derived from operation metadata.
pub open spec fn plan_for_operation(operation: FSEArchiveRebuildOperationMetadata) -> FSEArchiveRebuildPlanMetadata {
    FSEArchiveRebuildPlanMetadata {
        reason: operation_reason(operation),
        payload_kind: operation_payload_kind(operation),
        operation,
        requires_full_archive_rebuild: true,
        resulting_record_count: operation_resulting_record_count(operation),
    }
}

impl FSEArchiveRebuildPlanMetadata {
    /// Creates rebuild plan metadata for an append operation.
    pub fn for_append(append: FSEArchiveAppendOperationMetadata) -> (result: Result<
        Self,
        FSEArchiveRebuildPlanMetadataError,
    >)
        ensures
            match append_metadata_error(append) {
                None => result == Ok::<Self, FSEArchiveRebuildPlanMetadataError>(
                    plan_for_operation(FSEArchiveRebuildOperationMetadata::Append(append)),
                ),
                Some(error) => result == Err::<Self, FSEArchiveRebuildPlanMetadataError>(
                    FSEArchiveRebuildPlanMetadataError::Append(error),
                ),
            },
    {
        let operation = FSEArchiveRebuildOperationMetadata::Append(append);
        let plan = FSEArchiveRebuildPlanMetadata {
            reason: operation.reason(),
            payload_kind: operation.payload_kind(),
            operation,
            requires_full_archive_rebuild: true,
            resulting_record_count: operation.resulting_record_count(),
        };
        match plan.validate() {
            Ok(()) => Ok(plan),
            Err(error) => Err(error),
        }
    }

    /// Creates rebuild plan metadata for a compaction operation.
    pub fn for_compaction(compaction: FSEArchiveCompactionOperationMetadata) -> (result: Result<
        Self,
        FSEArchiveRebuildPlanMetadataError,
    >)
        ensures
            match compaction_metadata_error(compaction) {
                None => result == Ok::<Self, FSEArchiveRebuildPlanMetadataError>(
                    plan_for_operation(FSEArchiveRebuildOperationMetadata::Compaction(compaction)),
                ),
                Some(error) => result == Err::<Self, FSEArchiveRebuildPlanMetadataError>(
                    FSEArchiveRebuildPlanMetadataError::Compaction(error),
                ),
            },
    {
        let operation = FSEArchiveRebuildOperationMetadata::Compaction(compaction);
        let plan = FSEArchiveRebuildPlanMetadata {
            reason: operation.reason(),
            payload_kind: operation.payload_kind(),
            operation,
            requires_full_archive_rebuild: true,
            resulting_record_count: operation.resulting_record_count(),
        };
        match plan.validate() {
            Ok(()) => Ok(plan),
            Err(error) => Err(error),
        }
    }

    /// Validates archive rebuild plan metadata.
    pub fn validate(&self) -> (result: Result<(), FSEArchiveRebuildPlanMetadataError>)
        ensures
            match rebuild_plan_error(*self) {
                None => result is Ok,
                Some(error) => result == Err::<(), FSEArchiveRebuildPlanMetadataError>(error),
            },
    {
        match self.operation.validate() {
            Ok(()) => {},
            Err(error) => return Err(error),
        }
        let operation_reason = self.operation.reason();
        if self.reason != operation_reason {
            return Err(
                FSEArchiveRebuildPlanMetadataError::ReasonMismatch {
                    plan_reason: self.reason,
                    operation_reason,
                },
            );
        }
        let operation_payload_kind = self.operation.payload_kind();
        if self.payload_kind != operation_payload_kind {
            return Err(
                FSEArchiveRebuildPlanMetadataError::PayloadKindMismatch {
                    plan_payload_kind: self.payload_kind,
                    operation_payload_kind,
                },
            );
        }
        let operation_resulting_record_count = self.operation.resulting_record_count();
        if self.resulting_record_count != operation_resulting_record_count {
            return Err(
                FSEArchiveRebuildPlanMetadataError::ResultingRecordCountMismatch {
                    plan_resulting_record_count: self.resulting_record_count,
                    operation_resulting_record_count,
                },
            );
        }
        if !self.requires_full_archive_rebuild {
            return Err(
                FSEArchiveRebuildPlanMetadataError::FullArchiveRebuildRequired {
                    reason: self.reason,
                },
            );
        }
        Ok(())
    }
}

// ---------------------------------------------------------------------------
// Maintenance policy
// ---------------------------------------------------------------------------

/// Maintenance action selected for an archive.
#[derive(Clone, Copy, Debug, PartialEq, Eq, Structural)]
pub enum FSEArchiveMaintenanceAction {
    /// No archive maintenance is currently selected.
    NoMaintenance,
    /// Apply pending appended records.
    Append,
    /// Compact tombstoned records.
    Compact,
    /// Rebuild the archive from pending maintenance work.
    Rebuild,
}

/// Reason an archive maintenance action was selected.
#[derive(Clone, Copy, Debug, PartialEq, Eq, Structural)]
pub enum FSEArchiveMaintenanceReason {
    /// The archive has no pending maintenance work.
    NoPendingMaintenance,
    /// Pending appended records should be applied.
    PendingAppendRecords,
    /// Pending appended records reached the rebuild threshold.
    AppendRebuildThresholdReached,
    /// Tombstone count reached the compaction threshold.
    CompactionTombstoneCountThresholdReached,
    /// Tombstone ratio reached the compaction threshold.
    CompactionTombstoneRatioThresholdReached,
    /// Append and compaction work should be applied by one rebuild.
    AppendAndCompactionThresholdsReached,
}

/// Error returned when archive maintenance policy metadata is invalid.
#[derive(Clone, Copy, Debug, PartialEq, Eq, Structural)]
pub enum FSEArchiveMaintenanceError {
    /// The source archive record count was zero.
    ZeroBaseRecordCount,
    /// The pending append count overflowed the archive record count.
    ResultingRecordCountOverflow {
        /// Number of records in the source archive.
        base_record_count: u64,
        /// Number of pending appended records.
        pending_append_record_count: u64,
    },
    /// Append rebuild threshold was zero.
    ZeroAppendRebuildRecordCountThreshold,
    /// Compaction tombstone count threshold was zero.
    ZeroCompactionTombstoneCountThreshold,
    /// Compaction tombstone ratio threshold was zero.
    ZeroCompactionTombstoneRatioThreshold,
}

/// Diagnostic text of an error of type `FSEArchiveMaintenanceError`.
pub open spec fn maintenance_error_message(error: FSEArchiveMaintenanceError) -> &'static str {
    match error {
        FSEArchiveMaintenanceError::ZeroBaseRecordCount => {
            "archive maintenance base record count must be greater than zero"
        },
        FSEArchiveMaintenanceError::ResultingRecordCountOverflow { .. } => {
            "archive maintenance resulting record count overflowed"
        },
        FSEArchiveMaintenanceError::ZeroAppendRebuildRecordCountThreshold => {
            "archive maintenance append rebuild threshold must be greater than zero"
        },
        FSEArchiveMaintenanceError::ZeroCompactionTombstoneCountThreshold => {
            "archive maintenance compaction tombstone count threshold must be greater than zero"
        },
        FSEArchiveMaintenanceError::ZeroCompactionTombstoneRatioThreshold => {
            "archive maintenance compaction tombstone ratio threshold must be greater than zero"
        },
    }
}

impl FSEArchiveMaintenanceError {
    /// Returns the diagnostic message for the error.
    pub fn message(&self) -> (message: &'static str)
        ensures
            message == maintenance_error_message(*self),
    {
        match self {
            FSEArchiveMaintenanceError::ZeroBaseRecordCount => {
                "archive maintenance base record count must be greater than zero"
            },
            FSEArchiveMaintenanceError::ResultingRecordCountOverflow { .. } => {
                "archive maintenance resulting record count overflowed"
            },
            FSEArchiveMaintenanceError::ZeroAppendRebuildRecordCountThreshold => {
                "archive maintenance append rebuild threshold must be greater than zero"
            },
            FSEArchiveMaintenanceError::ZeroCompactionTombstoneCountThreshold => {
                "archive maintenance compaction tombstone count threshold must be greater than zero"
            },
            FSEArchiveMaintenanceError::ZeroCompactionTombstoneRatioThreshold => {
                "archive maintenance compaction tombstone ratio threshold must be greater than zero"
            },
        }
    }
}

/// Thresholds used to select archive maintenance actions.
#[derive(Clone, Copy, Debug, PartialEq, Eq, Structural)]
pub struct FSEArchiveMaintenancePolicy {
    /// Pending append count that selects a full archive rebuild.
    pub append_rebuild_record_count_threshold: u64,
    /// Tombstone count that selects archive compaction.
    pub compaction_tombstone_count_threshold: u64,
    /// Tombstone-to-base-record ratio, in basis points, that selects compaction.
    pub compaction_tombstone_ratio_threshold_basis_points: u64,
}

impl Default for FSEArchiveMaintenancePolicy {
    fn default() -> (policy: Self)
        ensures
            policy.append_rebuild_record_count_threshold == 1024,
            policy.compaction_tombstone_count_threshold == 1024,
            policy.compaction_tombstone_ratio_threshold_basis_points == 2500,
    {
        FSEArchiveMaintenancePolicy {
            append_rebuild_record_count_threshold: 1024,
            compaction_tombstone_count_threshold: 1024,
            compaction_tombstone_ratio_threshold_basis_points: 2500,
        }
    }
}

/// The first failing check of a maintenance policy, or `None` when it is valid.
pub open spec fn policy_error(policy: FSEArchiveMaintenancePolicy) -> Option<FSEArchiveMaintenanceError> {
    if policy.append_rebuild_record_count_threshold == 0 {
        Some(FSEArchiveMaintenanceError::ZeroAppendRebuildRecordCountThreshold)
    } else if policy.compaction_tombstone_count_threshold == 0 {
        Some(FSEArchiveMaintenanceError::ZeroCompactionTombstoneCountThreshold)
    } else if policy.compaction_tombstone_ratio_threshold_basis_points == 0 {
        Some(FSEArchiveMaintenanceError::ZeroCompactionTombstoneRatioThreshold)
    } else {
        None
    }
}

/// The first failing check of maintenance input, or `None` when it is valid.
pub open spec fn input_error(input: FSEArchiveMaintenanceInput) -> Option<FSEArchiveMaintenanceError> {
    if input.base_record_count == 0 {
        Some(FSEArchiveMaintenanceError::ZeroBaseRecordCount)
    } else if input.base_record_count + input.pending_append_record_count > u64::MAX {
        Some(
            FSEArchiveMaintenanceError::ResultingRecordCountOverflow {
                base_record_count: input.base_record_count,
                pending_append_record_count: input.pending_append_record_count,
            },
        )
    } else {
        None
    }
}

/// Tombstones per base record in basis points, truncated to 64 bits.
pub open spec fn tombstone_ratio(input: FSEArchiveMaintenanceInput) -> u64
    recommends
        input.base_record_count > 0,
{
    ((input.tombstone_count * 10000) / (input.base_record_count as int)) as u64
}

/// The compaction threshold reached by the input, if any; the count threshold is checked first.
pub open spec fn compaction_reason_for(
    policy: FSEArchiveMaintenancePolicy,
    input: FSEArchiveMaintenanceInput,
    ratio: u64,
) -> Option<FSEArchiveMaintenanceReason> {
    if input.tombstone_count >= policy.compaction_tombstone_count_threshold {
        Some(FSEArchiveMaintenanceReason::CompactionTombstoneCountThresholdReached)
    } else if ratio >= policy.compaction_tombstone_ratio_threshold_basis_points {
        Some(FSEArchiveMaintenanceReason::CompactionTombstoneRatioThresholdReached)
    } else {
        None
    }
}

/// The action and reason the policy selects for valid input.
pub open spec fn maintenance_choice(
    policy: FSEArchiveMaintenancePolicy,
    input: FSEArchiveMaintenanceInput,
) -> (FSEArchiveMaintenanceAction, FSEArchiveMaintenanceReason) {
    let has_pending_append = input.pending_append_record_count > 0;
    let append_threshold_reached = input.pending_append_record_count
        >= policy.append_rebuild_record_count_threshold;
    let compaction = compaction_reason_for(policy, input, tombstone_ratio(input));
    if has_pending_append {
        if compaction is Some {
            (
                FSEArchiveMaintenanceAction::Rebuild,
                FSEArchiveMaintenanceReason::AppendAndCompactionThresholdsReached,
            )
        } else if append_threshold_reached {
            (
                FSEArchiveMaintenanceAction::Rebuild,
                FSEArchiveMaintenanceReason::AppendRebuildThresholdReached,
            )
        } else {
            (FSEArchiveMaintenanceAction::Append, FSEArchiveMaintenanceReason::PendingAppendRecords)
        }
    } else {
        match compaction {
            Some(reason) => (FSEArchiveMaintenanceAction::Compact, reason),
            None => (
                FSEArchiveMaintenanceAction::NoMaintenance,
                FSEArchiveMaintenanceReason::NoPendingMaintenance,
            ),
        }
    }
}

/// What `FSEArchiveMaintenancePolicy::evaluate` yields for the policy and input.
pub open spec fn maintenance_evaluation(
    policy: FSEArchiveMaintenancePolicy,
    input: FSEArchiveMaintenanceInput,
) -> Result<FSEArchiveMaintenanceDecision, FSEArchiveMaintenanceError> {
    if policy_error(policy) is Some {
        Err(policy_error(policy)->0)
    } else if input_error(input) is Some {
        Err(input_error(input)->0)
    } else {
        Ok(
            FSEArchiveMaintenanceDecision {
                action: maintenance_choice(policy, input).0,
                reason: maintenance_choice(policy, input).1,
                input,
                tombstone_ratio_basis_points: tombstone_ratio(input),
            },
        )
    }
}

impl FSEArchiveMaintenancePolicy {
    /// Creates archive maintenance policy metadata.
    pub fn try_new(
        append_rebuild_record_count_threshold: u64,
        compaction_tombstone_count_threshold: u64,
        compaction_tombstone_ratio_threshold_basis_points: u64,
    ) -> (result: Result<Self, FSEArchiveMaintenanceError>)
        ensures
            ({
                let policy = FSEArchiveMaintenancePolicy {
                    append_rebuild_record_count_threshold,
                    compaction_tombstone_count_threshold,
                    compaction_tombstone_ratio_threshold_basis_points,
                };
                match policy_error(policy) {
                    None => result == Ok::<Self, FSEArchiveMaintenanceError>(policy),
                    Some(error) => result == Err::<Self, FSEArchiveMaintenanceError>(error),
                }
            }),
    {
        let policy = FSEArchiveMaintenancePolicy {
            append_rebuild_record_count_threshold,
            compaction_tombstone_count_threshold,
            compaction_tombstone_ratio_threshold_basis_points,
        };
        match policy.validate() {
            Ok(()) => Ok(policy),
            Err(error) => Err(error),
        }
    }

    /// Validates archive maintenance policy metadata.
    pub fn validate(&self) -> (result: Result<(), FSEArchiveMaintenanceError>)
        ensures
            match policy_error(*self) {
                None => result is Ok,
                Some(error) => result == Err::<(), FSEArchiveMaintenanceError>(error),
            },
    {
        if self.append_rebuild_record_count_threshold == 0 {
            return Err(FSEArchiveMaintenanceError::ZeroAppendRebuildRecordCountThreshold);
        }
        if self.compaction_tombstone_count_threshold == 0 {
            return Err(FSEArchiveMaintenanceError::ZeroCompactionTombstoneCountThreshold);
        }
        if self.compaction_tombstone_ratio_threshold_basis_points == 0 {
            return Err(FSEArchiveMaintenanceError::ZeroCompactionTombstoneRatioThreshold);
        }
        Ok(())
    }

    /// Evaluates the maintenance action for an archive.
    pub fn evaluate(&self, input: FSEArchiveMaintenanceInput) -> (result: Result<
        FSEArchiveMaintenanceDecision,
        FSEArchiveMaintenanceError,
    >)
        ensures
            result == maintenance_evaluation(*self, input),
    {
        match self.validate() {
            Ok(()) => {},
            Err(error) => return Err(error),
        }
        match input.validate() {
            Ok(()) => {},
            Err(error) => return Err(error),
        }
        let tombstone_ratio_basis_points = input.tombstone_ratio_basis_points();
        let has_pending_append = input.pending_append_record_count > 0;
        let append_rebuild_threshold_reached = input.pending_append_record_count
            >= self.append_rebuild_record_count_threshold;
        let compaction_reason = self.compaction_reason(input, tombstone_ratio_basis_points);
        let (action, reason) = if has_pending_append {
            if compaction_reason.is_some() {
                (
                    FSEArchiveMaintenanceAction::Rebuild,
                    FSEArchiveMaintenanceReason::AppendAndCompactionThresholdsReached,
                )
            } else if append_rebuild_threshold_reached {
                (
                    FSEArchiveMaintenanceAction::Rebuild,
                    FSEArchiveMaintenanceReason::AppendRebuildThresholdReached,
                )
            } else {
                (
                    FSEArchiveMaintenanceAction::Append,
                    FSEArchiveMaintenanceReason::PendingAppendRecords,
                )
            }
        } else {
            match compaction_reason {
                Some(reason) => (FSEArchiveMaintenanceAction::Compact, reason),
                None => (
                    FSEArchiveMaintenanceAction::NoMaintenance,
                    FSEArchiveMaintenanceReason::NoPendingMaintenance,
                ),
            }
        };
        Ok(FSEArchiveMaintenanceDecision { action, reason, input, tombstone_ratio_basis_points })
    }

    fn compaction_reason(&self, input: FSEArchiveMaintenanceInput, tombstone_ratio_basis_points: u64) -> (reason:
        Option<FSEArchiveMaintenanceReason>)
        ensures
            reason == compaction_reason_for(*self, input, tombstone_ratio_basis_points),
    {
        if input.tombstone_count >= self.compaction_tombstone_count_threshold {
            return Some(FSEArchiveMaintenanceReason::CompactionTombstoneCountThresholdReached);
        }
        if tombstone_ratio_basis_points >= self.compaction_tombstone_ratio_threshold_basis_points {
            return Some(FSEArchiveMaintenanceReason::CompactionTombstoneRatioThresholdReached);
        }
        None
    }
}

/// Archive state used to evaluate maintenance policy.
#[derive(Clone, Copy, Debug, PartialEq, Eq, Structural)]
pub struct FSEArchiveMaintenanceInput {
    /// Number of records in the current archive.
    pub base_record_count: u64,
    /// Number of records waiting to be appended.
    pub pending_append_record_count: u64,
    /// Number of row tombstones waiting to be applied.
    pub tombstone_count: u64,
}

impl FSEArchiveMaintenanceInput {
    /// Creates archive maintenance input metadata.
    pub fn try_new(
        base_record_count: u64,
        pending_append_record_count: u64,
        tombstone_count: u64,
    ) -> (result: Result<Self, FSEArchiveMaintenanceError>)
        ensures
            ({
                let input = FSEArchiveMaintenanceInput {
                    base_record_count,
                    pending_append_record_count,
                    tombstone_count,
                };
                match input_error(input) {
                    None => result == Ok::<Self, FSEArchiveMaintenanceError>(input),
                    Some(error) => result == Err::<Self, FSEArchiveMaintenanceError>(error),
                }
            }),
    {
        let input = FSEArchiveMaintenanceInput {
            base_record_count,
            pending_append_record_count,
            tombstone_count,
        };
        match input.validate() {
            Ok(()) => Ok(input),
            Err(error) => Err(error),
        }
    }

    /// Validates archive maintenance input metadata.
    pub fn validate(&self) -> (result: Result<(), FSEArchiveMaintenanceError>)
        ensures
            match input_error(*self) {
                None => result is Ok,
                Some(error) => result == Err::<(), FSEArchiveMaintenanceError>(error),
            },
    {
        if self.base_record_count == 0 {
            return Err(FSEArchiveMaintenanceError::ZeroBaseRecordCount);
        }
        match self.base_record_count.checked_add(self.pending_append_record_count) {
            Some(_) => Ok(()),
            None => Err(
                FSEArchiveMaintenanceError::ResultingRecordCountOverflow {
                    base_record_count: self.base_record_count,
                    pending_append_record_count: self.pending_append_record_count,
                },
            ),
        }
    }

    /// Returns tombstones per base record in basis points.
    ///
    /// The base record count must be positive.
    pub fn tombstone_ratio_basis_points(&self) -> (ratio: u64)
        requires
            self.base_record_count > 0,
        ensures
            ratio == tombstone_ratio(*self),
    {
        let scaled: u128 = (self.tombstone_count as u128) * 10000u128;
        let ratio: u128 = scaled / (self.base_record_count as u128);
        #[verifier::truncate]
        (ratio as u64)
    }
}

/// Result of archive maintenance policy evaluation.
#[derive(Clone, Copy, Debug, PartialEq, Eq, Structural)]
pub struct FSEArchiveMaintenanceDecision {
    /// Selected maintenance action.
    pub action: FSEArchiveMaintenanceAction,
    /// Reason the maintenance action was selected.
    pub reason: FSEArchiveMaintenanceReason,
    /// Archive state used by the policy.
    pub input: FSEArchiveMaintenanceInput,
    /// Tombstone-to-base-record ratio used by the policy.
    pub tombstone_ratio_basis_points: u64,
}

impl FSEArchiveMaintenanceDecision {
    /// Returns whether the decision selects an archive write.
    pub fn requires_archive_write(&self) -> (writes: bool)
        ensures
            writes == (self.action != FSEArchiveMaintenanceAction::NoMaintenance),
    {
        self.action != FSEArchiveMaintenanceAction::NoMaintenance
    }
}

// ---------------------------------------------------------------------------
// Laws
// ---------------------------------------------------------------------------

/// Append metadata accepted by `try_new` records `resulting = base + appended`,
/// with both counts positive, and passes `validate`.
pub proof fn lemma_append_metadata_counts(
    payload_kind: FSEArchivePayloadKind,
    base_record_count: u64,
    appended_record_count: u64,
)
    ensures
        append_metadata_from_counts(payload_kind, base_record_count, appended_record_count) is Ok
            <==> (base_record_count > 0 && appended_record_count > 0 && base_record_count
            + appended_record_count <= u64::MAX),
        append_metadata_from_counts(payload_kind, base_record_count, appended_record_count) matches Ok(
            metadata,
        ) ==> {
            &&& metadata.resulting_record_count == base_record_count + appended_record_count
            &&& append_metadata_error(metadata) is None
        },
{
}

/// Compaction metadata accepted by `try_new` records `retained + removed = base`
/// with at least one retained record and at least one tombstone, and passes `validate`.
pub proof fn lemma_compaction_metadata_counts(
    payload_kind: FSEArchivePayloadKind,
    base_record_count: u64,
    tombstone_count: u64,
    removed_record_count: u64,
)
    ensures
        compaction_metadata_from_counts(
            payload_kind,
            base_record_count,
            tombstone_count,
            removed_record_count,
        ) is Ok <==> (tombstone_count > 0 && removed_record_count < base_record_count),
        compaction_metadata_from_counts(
            payload_kind,
            base_record_count,
            tombstone_count,
            removed_record_count,
        ) matches Ok(metadata) ==> {
            &&& metadata.retained_record_count + metadata.removed_record_count
                == metadata.base_record_count
            &&& metadata.retained_record_count > 0
            &&& compaction_metadata_error(metadata) is None
        },
{
}

/// A rebuild plan built from valid operation metadata is itself valid, requires a
/// full archive rebuild, and carries the operation's reason, payload kind and
/// resulting record count.
pub proof fn lemma_rebuild_plan_agrees_with_operation(operation: FSEArchiveRebuildOperationMetadata)
    requires
        operation_error(operation) is None,
    ensures
        rebuild_plan_error(plan_for_operation(operation)) is None,
        plan_for_operation(operation).requires_full_archive_rebuild,
        plan_for_operation(operation).resulting_record_count == operation_resulting_record_count(
            operation,
        ),
{
}

/// Evaluation succeeds exactly on a valid policy and valid input; the decision writes the
/// archive exactly when appends are pending or a compaction threshold is reached, and a
/// rebuild is chosen exactly when both kinds of work are due or appends reach their threshold.
pub proof fn lemma_maintenance_decision(
    policy: FSEArchiveMaintenancePolicy,
    input: FSEArchiveMaintenanceInput,
)
    ensures
        maintenance_evaluation(policy, input) is Ok <==> (policy_error(policy) is None
            && input_error(input) is None),
        maintenance_evaluation(policy, input) matches Ok(decision) ==> {
            let compaction_due = compaction_reason_for(policy, input, tombstone_ratio(input)) is Some;
            &&& (decision.action != FSEArchiveMaintenanceAction::NoMaintenance) <==> (
            input.pending_append_record_count > 0 || compaction_due)
            &&& (decision.action == FSEArchiveMaintenanceAction::Rebuild) <==> (
            input.pending_append_record_count > 0 && (compaction_due
                || input.pending_append_record_count >= policy.append_rebuild_record_count_threshold))
            &&& (decision.action == FSEArchiveMaintenanceAction::Compact) <==> (
            input.pending_append_record_count == 0 && compaction_due)
            &&& decision.input == input
        },
{
}

/// The compaction threshold that a reading reports: the count threshold
/// whenever the tombstone count reaches it, the ratio threshold only when the
/// count threshold is not reached and the ratio reaches its threshold, and none
/// exactly when neither is reached.
pub proof fn lemma_compaction_reason_prefers_the_count(
    policy: FSEArchiveMaintenancePolicy,
    input: FSEArchiveMaintenanceInput,
    ratio: u64,
)
    ensures
        ({
            let reason = compaction_reason_for(policy, input, ratio);
            let count_reached = input.tombstone_count >= policy.compaction_tombstone_count_threshold;
            let ratio_reached = ratio >= policy.compaction_tombstone_ratio_threshold_basis_points;
            &&& count_reached ==> reason == Some(
                FSEArchiveMaintenanceReason::CompactionTombstoneCountThresholdReached,
            )
            &&& reason == Some(FSEArchiveMaintenanceReason::CompactionTombstoneRatioThresholdReached)
                <==> (!count_reached && ratio_reached)
            &&& reason is None <==> (!count_reached && !ratio_reached)
            &&& reason matches Some(r) ==> (r
                == FSEArchiveMaintenanceReason::CompactionTombstoneCountThresholdReached || r
                == FSEArchiveMaintenanceReason::CompactionTombstoneRatioThresholdReached)
        }),
{
}

/// What a valid policy decides for valid input. The ratio is the tombstones per
/// base record in basis points. A compaction is due when the tombstone count
/// or the ratio reaches its threshold. With records pending: a rebuild that
/// reports both thresholds exactly when a compaction is due; a rebuild for the
/// append threshold exactly when that threshold is reached and no compaction
/// is due; else an append. With none pending: a compaction, reporting the count
/// threshold whenever the count reaches it and the ratio threshold only
/// otherwise, exactly when one is due; else no maintenance.
pub proof fn lemma_maintenance_decision_reasons(policy: FSEArchiveMaintenancePolicy, input: FSEArchiveMaintenanceInput)
    requires
        policy_error(policy) is None,
        input_error(input) is None,
    ensures
        maintenance_evaluation(policy, input) is Ok,
        ({
            let decision = maintenance_evaluation(policy, input)->Ok_0;
            let ratio = decision.tombstone_ratio_basis_points;
            let pending = input.pending_append_record_count > 0;
            let count_reached = input.tombstone_count >= policy.compaction_tombstone_count_threshold;
            let compaction_due = count_reached || ratio
                >= policy.compaction_tombstone_ratio_threshold_basis_points;
            let append_reached = input.pending_append_record_count
                >= policy.append_rebuild_record_count_threshold;
            &&& decision.input == input
            &&& input.tombstone_count * 10000 / (input.base_record_count as int) <= u64::MAX ==> ratio
                == input.tombstone_count * 10000 / (input.base_record_count as int)
            &&& pending ==> (decision.reason == FSEArchiveMaintenanceReason::AppendAndCompactionThresholdsReached
                <==> compaction_due)
            &&& pending ==> (decision.reason == FSEArchiveMaintenanceReason::AppendRebuildThresholdReached
                <==> (append_reached && !compaction_due))
            &&& pending ==> (decision.action == FSEArchiveMaintenanceAction::Rebuild <==> (append_reached
                || compaction_due))
            &&& pending ==> (decision.action == FSEArchiveMaintenanceAction::Append <==> (!append_reached
                && !compaction_due))
            &&& decision.action == FSEArchiveMaintenanceAction::Append ==> decision.reason
                == FSEArchiveMaintenanceReason::PendingAppendRecords
            &&& !pending ==> (decision.action == FSEArchiveMaintenanceAction::Compact <==> compaction_due)
            &&& !pending ==> (decision.action == FSEArchiveMaintenanceAction::NoMaintenance
                <==> !compaction_due)
            &&& !pending && count_reached ==> decision.reason
                == FSEArchiveMaintenanceReason::CompactionTombstoneCountThresholdReached
            &&& decision.reason == FSEArchiveMaintenanceReason::CompactionTombstoneRatioThresholdReached
                ==> !pending && !count_reached && ratio
                >= policy.compaction_tombstone_ratio_threshold_basis_points
            &&& decision.reason == FSEArchiveMaintenanceReason::NoPendingMaintenance <==> (!pending
                && !compaction_due)
        }),
{
    let ratio = tombstone_ratio(input);
    let scaled = input.tombstone_count * 10000 / (input.base_record_count as int);
    assert(scaled >= 0) by (nonlinear_arith)
        requires
            input.base_record_count > 0,
            scaled == input.tombstone_count * 10000 / (input.base_record_count as int),
    ;
}

/// Which error evaluation reports: the policy is checked before the input, the
/// append threshold before the count threshold before the ratio threshold, and
/// an empty archive before an overflowing record total.
pub proof fn lemma_maintenance_evaluation_errors(
    policy: FSEArchiveMaintenancePolicy,
    input: FSEArchiveMaintenanceInput,
)
    ensures
        policy.append_rebuild_record_count_threshold == 0 ==> maintenance_evaluation(policy, input)
            == Err::<FSEArchiveMaintenanceDecision, FSEArchiveMaintenanceError>(
            FSEArchiveMaintenanceError::ZeroAppendRebuildRecordCountThreshold,
        ),
        policy.append_rebuild_record_count_threshold > 0 && policy.compaction_tombstone_count_threshold
            == 0 ==> maintenance_evaluation(policy, input) == Err::<
            FSEArchiveMaintenanceDecision,
            FSEArchiveMaintenanceError,
        >(FSEArchiveMaintenanceError::ZeroCompactionTombstoneCountThreshold),
        policy.append_rebuild_record_count_threshold > 0 && policy.compaction_tombstone_count_threshold > 0
            && policy.compaction_tombstone_ratio_threshold_basis_points == 0 ==> maintenance_evaluation(
            policy,
            input,
        ) == Err::<FSEArchiveMaintenanceDecision, FSEArchiveMaintenanceError>(
            FSEArchiveMaintenanceError::ZeroCompactionTombstoneRatioThreshold,
        ),
        policy_error(policy) is None && input.base_record_count == 0 ==> maintenance_evaluation(
            policy,
            input,
        ) == Err::<FSEArchiveMaintenanceDecision, FSEArchiveMaintenanceError>(
            FSEArchiveMaintenanceError::ZeroBaseRecordCount,
        ),
        policy_error(policy) is None && input.base_record_count > 0 && input.base_record_count
            + input.pending_append_record_count > u64::MAX ==> maintenance_evaluation(policy, input)
            == Err::<FSEArchiveMaintenanceDecision, FSEArchiveMaintenanceError>(
            FSEArchiveMaintenanceError::ResultingRecordCountOverflow {
                base_record_count: input.base_record_count,
                pending_append_record_count: input.pending_append_record_count,
            },
        ),
        policy.append_rebuild_record_count_threshold > 0 && policy.compaction_tombstone_count_threshold > 0
            && policy.compaction_tombstone_ratio_threshold_basis_points > 0 ==> policy_error(policy) is None,
{
}

} // verus!
