//! `.fse` file contents for typed row tombstone archives.
//!
//! These functions compute what the tombstone archive files hold; reading and
//! writing the files themselves is left to the caller.
use std::io::ErrorKind;
use std::path::PathBuf;
use vstd::prelude::*;
use vstd::std_specs::convert::FromSpecImpl;

use crate::data::RowId;
use crate::id_sets::{is_smallest_duplicate, smallest_duplicate, sorted_union, strictly_increasing};

use super::archive_file::FSEArchiveFileOperation;
use super::payload::{
    decode_archive_payload, decoded_archive_payload, encode_archive_payload, encoded_archive_payload,
    payload_header_error_message, FSEArchivePayloadHeaderError, FSEArchivePayloadKind,
};
use super::tombstone::{
    lemma_smallest_duplicate_unique, row_id_values, tombstone_snapshot_error_message, smallest_duplicated_value, tombstone_ids_check,
    FSETypedRowTombstoneArchiveSnapshot, FSETypedRowTombstoneArchiveSnapshotError,
};
use super::tombstone_codec::{
    decode_typed_row_tombstone_archive_snapshot, decoded_tombstone_ids,
    encode_typed_row_tombstone_archive_snapshot, encoded_tombstone_ids, tombstone_codec_error_message,
    FSETypedRowTombstoneArchiveCodecError,
};

verus! {

/// Error returned when typed row tombstone archive file access fails.
#[derive(Clone, Debug, PartialEq, Eq)]
pub enum FSETypedRowTombstoneArchiveFileError {
    /// The path does not use the `.fse` archive extension.
    InvalidFileExtension {
        /// Path provided by the caller.
        path: PathBuf,
    },
    /// Archive byte encoding or decoding failed.
    Codec(FSETypedRowTombstoneArchiveCodecError),
    /// Archive payload metadata validation failed.
    Payload(FSEArchivePayloadHeaderError),
    /// A filesystem operation failed.
    Io {
        /// Operation that failed.
        operation: FSEArchiveFileOperation,
        /// Path used by the operation.
        path: PathBuf,
        /// Operating-system error kind.
        kind: ErrorKind,
    },
}

/// Diagnostic text of an error of type `FSETypedRowTombstoneArchiveFileError`.
pub open spec fn tombstone_file_error_message(error: FSETypedRowTombstoneArchiveFileError) -> &'static str {
    match error {
        FSETypedRowTombstoneArchiveFileError::InvalidFileExtension { .. } => {
            "typed row tombstone archive path must use the .fse extension"
        },
        FSETypedRowTombstoneArchiveFileError::Codec(error) => tombstone_codec_error_message(error),
        FSETypedRowTombstoneArchiveFileError::Payload(error) => payload_header_error_message(error),
        FSETypedRowTombstoneArchiveFileError::Io { operation, .. } => match operation {
            FSEArchiveFileOperation::Read => "failed to read typed row tombstone archive file",
            FSEArchiveFileOperation::Write => "failed to write typed row tombstone archive file",
        },
    }
}

impl FSETypedRowTombstoneArchiveFileError {
    /// Returns the diagnostic message for the error.
    pub fn message(&self) -> (message: &'static str)
        ensures
            message == tombstone_file_error_message(*self),
    {
        match self {
            FSETypedRowTombstoneArchiveFileError::InvalidFileExtension { .. } => {
                "typed row tombstone archive path must use the .fse extension"
            },
            FSETypedRowTombstoneArchiveFileError::Codec(error) => error.message(),
            FSETypedRowTombstoneArchiveFileError::Payload(error) => error.message(),
            FSETypedRowTombstoneArchiveFileError::Io { operation, .. } => match operation {
                FSEArchiveFileOperation::Read => "failed to read typed row tombstone archive file",
                FSEArchiveFileOperation::Write => "failed to write typed row tombstone archive file",
            },
        }
    }
}

impl From<FSETypedRowTombstoneArchiveCodecError> for FSETypedRowTombstoneArchiveFileError {
    fn from(error: FSETypedRowTombstoneArchiveCodecError) -> (converted: Self) {
        FSETypedRowTombstoneArchiveFileError::Codec(error)
    }
}

impl FromSpecImpl<FSETypedRowTombstoneArchiveCodecError> for FSETypedRowTombstoneArchiveFileError {
    open spec fn obeys_from_spec() -> bool {
        true
    }

    open spec fn from_spec(error: FSETypedRowTombstoneArchiveCodecError) -> Self {
        FSETypedRowTombstoneArchiveFileError::Codec(error)
    }
}

impl From<FSEArchivePayloadHeaderError> for FSETypedRowTombstoneArchiveFileError {
    fn from(error: FSEArchivePayloadHeaderError) -> (converted: Self) {
        FSETypedRowTombstoneArchiveFileError::Payload(error)
    }
}

impl FromSpecImpl<FSEArchivePayloadHeaderError> for FSETypedRowTombstoneArchiveFileError {
    open spec fn obeys_from_spec() -> bool {
        true
    }

    open spec fn from_spec(error: FSEArchivePayloadHeaderError) -> Self {
        FSETypedRowTombstoneArchiveFileError::Payload(error)
    }
}

/// Error returned when saving or loading a typed row tombstone archive fails.
#[derive(Clone, Debug, PartialEq, Eq)]
pub enum FSETypedRowTombstoneArchiveError {
    /// Building or reconstructing a typed row tombstone archive snapshot failed.
    Snapshot(FSETypedRowTombstoneArchiveSnapshotError),
    /// The append operation did not contain any row identifiers.
    EmptyAppend,
    /// The append operation contained a row identifier more than once.
    DuplicateAppendedRowId {
        /// Duplicate row identifier.
        row_id: RowId,
    },
    /// Typed row tombstone archive file access failed.
    File(FSETypedRowTombstoneArchiveFileError),
}

/// Diagnostic text of an error of type `FSETypedRowTombstoneArchiveError`.
pub open spec fn tombstone_archive_error_message(error: FSETypedRowTombstoneArchiveError) -> &'static str {
    match error {
        FSETypedRowTombstoneArchiveError::Snapshot(error) => tombstone_snapshot_error_message(error),
        FSETypedRowTombstoneArchiveError::EmptyAppend => {
            "typed row tombstone archive append requires row identifiers"
        },
        FSETypedRowTombstoneArchiveError::DuplicateAppendedRowId { .. } => {
            "typed row tombstone archive append row identifiers must be unique"
        },
        FSETypedRowTombstoneArchiveError::File(error) => tombstone_file_error_message(error),
    }
}

impl FSETypedRowTombstoneArchiveError {
    /// Returns the diagnostic message for the error.
    pub fn message(&self) -> (message: &'static str)
        ensures
            message == tombstone_archive_error_message(*self),
    {
        match self {
            FSETypedRowTombstoneArchiveError::Snapshot(error) => error.message(),
            FSETypedRowTombstoneArchiveError::EmptyAppend => {
                "typed row tombstone archive append requires row identifiers"
            },
            FSETypedRowTombstoneArchiveError::DuplicateAppendedRowId { .. } => {
                "typed row tombstone archive append row identifiers must be unique"
            },
            FSETypedRowTombstoneArchiveError::File(error) => error.message(),
        }
    }
}

impl From<FSETypedRowTombstoneArchiveSnapshotError> for FSETypedRowTombstoneArchiveError {
    fn from(error: FSETypedRowTombstoneArchiveSnapshotError) -> (converted: Self) {
        FSETypedRowTombstoneArchiveError::Snapshot(error)
    }
}

impl FromSpecImpl<FSETypedRowTombstoneArchiveSnapshotError> for FSETypedRowTombstoneArchiveError {
    open spec fn obeys_from_spec() -> bool {
        true
    }

    open spec fn from_spec(error: FSETypedRowTombstoneArchiveSnapshotError) -> Self {
        FSETypedRowTombstoneArchiveError::Snapshot(error)
    }
}

impl From<FSETypedRowTombstoneArchiveFileError> for FSETypedRowTombstoneArchiveError {
    fn from(error: FSETypedRowTombstoneArchiveFileError) -> (converted: Self) {
        FSETypedRowTombstoneArchiveError::File(error)
    }
}

impl FromSpecImpl<FSETypedRowTombstoneArchiveFileError> for FSETypedRowTombstoneArchiveError {
    open spec fn obeys_from_spec() -> bool {
        true
    }

    open spec fn from_spec(error: FSETypedRowTombstoneArchiveFileError) -> Self {
        FSETypedRowTombstoneArchiveError::File(error)
    }
}

/// Result returned after appending typed row tombstones.
#[derive(Clone, Debug, PartialEq, Eq)]
pub struct FSETypedRowTombstoneArchiveAppendResult {
    /// Number of tombstones stored before the append.
    pub base_tombstone_count: usize,
    /// Number of row identifiers provided by the append request.
    pub requested_tombstone_count: usize,
    /// Number of row identifiers added by the append request.
    pub appended_tombstone_count: usize,
    /// Number of tombstones stored after the append.
    pub resulting_tombstone_count: usize,
    /// Tombstones saved to the archive after the append.
    pub row_ids: Vec<RowId>,
}

/// What the `.fse` file of a tombstone snapshot holds.
pub open spec fn tombstone_archive_file_contents(ids: Seq<u64>) -> Result<
    Seq<u8>,
    FSETypedRowTombstoneArchiveFileError,
> {
    match encoded_tombstone_ids(ids) {
        Ok(payload) => Ok(
            encoded_archive_payload(FSEArchivePayloadKind::TypedRowTombstone, payload),
        ),
        Err(error) => Err(FSETypedRowTombstoneArchiveFileError::Codec(error)),
    }
}

/// What reading the bytes of a tombstone `.fse` file yields.
pub open spec fn tombstone_archive_file_ids(bytes: Seq<u8>) -> Result<
    Seq<u64>,
    FSETypedRowTombstoneArchiveFileError,
> {
    match decoded_archive_payload(FSEArchivePayloadKind::TypedRowTombstone, bytes) {
        Err(error) => Err(FSETypedRowTombstoneArchiveFileError::Payload(error)),
        Ok(payload) => match decoded_tombstone_ids(payload) {
            Ok(ids) => Ok(ids),
            Err(error) => Err(FSETypedRowTombstoneArchiveFileError::Codec(error)),
        },
    }
}

/// Returns the bytes of the `.fse` file that stores a typed row tombstone snapshot.
pub fn encode_typed_row_tombstone_archive_file(snapshot: &FSETypedRowTombstoneArchiveSnapshot) -> (result:
    Result<Vec<u8>, FSETypedRowTombstoneArchiveFileError>)
    ensures
        match tombstone_archive_file_contents(snapshot.deleted_row_ids@) {
            Ok(bytes) => result matches Ok(out) && out@ == bytes,
            Err(error) => result == Err::<Vec<u8>, FSETypedRowTombstoneArchiveFileError>(error),
        },
{
    let payload = match encode_typed_row_tombstone_archive_snapshot(snapshot) {
        Ok(payload) => payload,
        Err(error) => return Err(FSETypedRowTombstoneArchiveFileError::Codec(error)),
    };
    Ok(encode_archive_payload(FSEArchivePayloadKind::TypedRowTombstone, payload.as_slice()))
}

/// Reads a typed row tombstone snapshot from the bytes of a `.fse` file.
pub fn decode_typed_row_tombstone_archive_file(bytes: &[u8]) -> (result: Result<
    FSETypedRowTombstoneArchiveSnapshot,
    FSETypedRowTombstoneArchiveFileError,
>)
    ensures
        match tombstone_archive_file_ids(bytes@) {
            Ok(ids) => result matches Ok(snapshot) && snapshot.deleted_row_ids@ == ids,
            Err(error) => result == Err::<
                FSETypedRowTombstoneArchiveSnapshot,
                FSETypedRowTombstoneArchiveFileError,
            >(error),
        },
{
    let payload = match decode_archive_payload(FSEArchivePayloadKind::TypedRowTombstone, bytes) {
        Ok(payload) => payload,
        Err(error) => return Err(FSETypedRowTombstoneArchiveFileError::Payload(error)),
    };
    match decode_typed_row_tombstone_archive_snapshot(payload.as_slice()) {
        Ok(snapshot) => Ok(snapshot),
        Err(error) => Err(FSETypedRowTombstoneArchiveFileError::Codec(error)),
    }
}

/// What saving a list of row identifiers writes to the tombstone `.fse` file.
pub open spec fn tombstone_save_contents(row_ids: Seq<RowId>) -> Result<
    Seq<u8>,
    FSETypedRowTombstoneArchiveError,
> {
    match tombstone_ids_check(row_id_values(row_ids)) {
        Err(error) => Err(FSETypedRowTombstoneArchiveError::Snapshot(error)),
        Ok(()) => match tombstone_archive_file_contents(row_id_values(row_ids)) {
            Ok(bytes) => Ok(bytes),
            Err(error) => Err(FSETypedRowTombstoneArchiveError::File(error)),
        },
    }
}

/// What loading the bytes of a tombstone `.fse` file yields, as row identifier values.
pub open spec fn tombstone_load_ids(bytes: Seq<u8>) -> Result<Seq<u64>, FSETypedRowTombstoneArchiveError> {
    match tombstone_archive_file_ids(bytes) {
        Ok(ids) => Ok(ids),
        Err(error) => Err(FSETypedRowTombstoneArchiveError::File(error)),
    }
}

/// Returns the bytes that saving these row identifiers to a tombstone `.fse` file writes.
pub fn typed_row_tombstone_archive_file_bytes(row_ids: &[RowId]) -> (result: Result<
    Vec<u8>,
    FSETypedRowTombstoneArchiveError,
>)
    ensures
        match tombstone_save_contents(row_ids@) {
            Ok(bytes) => result matches Ok(out) && out@ == bytes,
            Err(error) => result == Err::<Vec<u8>, FSETypedRowTombstoneArchiveError>(error),
        },
{
    let snapshot = match FSETypedRowTombstoneArchiveSnapshot::from_row_ids(row_ids) {
        Ok(snapshot) => snapshot,
        Err(error) => return Err(FSETypedRowTombstoneArchiveError::Snapshot(error)),
    };
    match encode_typed_row_tombstone_archive_file(&snapshot) {
        Ok(bytes) => Ok(bytes),
        Err(error) => Err(FSETypedRowTombstoneArchiveError::File(error)),
    }
}

/// Returns the row identifiers stored in the bytes of a tombstone `.fse` file.
pub fn typed_row_tombstone_row_ids_from_archive_file_bytes(bytes: &[u8]) -> (result: Result<
    Vec<RowId>,
    FSETypedRowTombstoneArchiveError,
>)
    ensures
        match tombstone_load_ids(bytes@) {
            Ok(ids) => result matches Ok(row_ids) && row_id_values(row_ids@) == ids,
            Err(error) => result == Err::<Vec<RowId>, FSETypedRowTombstoneArchiveError>(error),
        },
{
    let snapshot = match decode_typed_row_tombstone_archive_file(bytes) {
        Ok(snapshot) => snapshot,
        Err(error) => return Err(FSETypedRowTombstoneArchiveError::File(error)),
    };
    match snapshot.to_row_ids() {
        Ok(row_ids) => Ok(row_ids),
        Err(error) => Err(FSETypedRowTombstoneArchiveError::Snapshot(error)),
    }
}

/// Checks the row identifiers of an append request: at least one, each once.
pub fn validate_append_row_ids(row_ids: &[RowId]) -> (result: Result<(), FSETypedRowTombstoneArchiveError>)
    ensures
        row_ids@.len() == 0 ==> result == Err::<(), FSETypedRowTombstoneArchiveError>(
            FSETypedRowTombstoneArchiveError::EmptyAppend,
        ),
        row_ids@.len() > 0 && row_id_values(row_ids@).no_duplicates() ==> result is Ok,
        row_ids@.len() > 0 && !row_id_values(row_ids@).no_duplicates() ==> result == Err::<
            (),
            FSETypedRowTombstoneArchiveError,
        >(
            FSETypedRowTombstoneArchiveError::DuplicateAppendedRowId {
                row_id: RowId(smallest_duplicated_value(row_id_values(row_ids@))),
            },
        ),
{
    if row_ids.len() == 0 {
        return Err(FSETypedRowTombstoneArchiveError::EmptyAppend);
    }
    let values = row_id_values_of(row_ids);
    match smallest_duplicate(values.as_slice()) {
        None => Ok(()),
        Some(value) => {
            proof {
                lemma_smallest_duplicate_unique(values@, value);
            }
            Err(FSETypedRowTombstoneArchiveError::DuplicateAppendedRowId { row_id: RowId::new(value) })
        },
    }
}

fn row_id_values_of(row_ids: &[RowId]) -> (values: Vec<u64>)
    ensures
        values@ == row_id_values(row_ids@),
{
    let mut values: Vec<u64> = Vec::with_capacity(row_ids.len());
    let mut index: usize = 0;
    while index < row_ids.len()
        invariant
            index <= row_ids@.len(),
            values@ == row_id_values(row_ids@.subrange(0, index as int)),
        decreases row_ids@.len() - index,
    {
        values.push(row_ids[index].value());
        proof {
            assert(row_id_values(row_ids@.subrange(0, index + 1)) =~= row_id_values(
                row_ids@.subrange(0, index as int),
            ).push(row_ids@[index as int].0));
        }
        index = index + 1;
    }
    assert(row_ids@.subrange(0, row_ids@.len() as int) =~= row_ids@);
    values
}

/// Returns the stored and appended tombstones, each once, in increasing row identifier order.
pub fn merge_tombstones(base: Vec<RowId>, appended: &[RowId]) -> (merged: Vec<RowId>)
    ensures
        strictly_increasing(row_id_values(merged@)),
        row_id_values(merged@).to_set() == row_id_values(base@).to_set() + row_id_values(
            appended@,
        ).to_set(),
{
    let base_values = row_id_values_of(base.as_slice());
    let appended_values = row_id_values_of(appended);
    let union = sorted_union(base_values.as_slice(), appended_values.as_slice());
    let mut merged: Vec<RowId> = Vec::with_capacity(union.len());
    let mut index: usize = 0;
    while index < union.len()
        invariant
            index <= union@.len(),
            row_id_values(merged@) == union@.subrange(0, index as int),
        decreases union@.len() - index,
    {
        let ghost before = merged@;
        merged.push(RowId::new(union[index]));
        proof {
            assert(row_id_values(merged@) =~= row_id_values(before).push(union@[index as int]));
            assert(row_id_values(merged@) =~= union@.subrange(0, index + 1));
        }
        index = index + 1;
    }
    assert(union@.subrange(0, union@.len() as int) =~= union@);
    merged
}

/// Combines the stored tombstones with an append request, as appending to the
/// tombstone archive does: the union is kept in increasing order, without repeats.
///
/// The stored tombstones must be free of repeats, as loading an archive guarantees.
pub fn typed_row_tombstone_append_result(base: Vec<RowId>, appended: &[RowId]) -> (result:
    FSETypedRowTombstoneArchiveAppendResult)
    requires
        row_id_values(base@).no_duplicates(),
    ensures
        result.base_tombstone_count == base@.len(),
        result.requested_tombstone_count == appended@.len(),
        result.resulting_tombstone_count == result.row_ids@.len(),
        result.appended_tombstone_count == result.resulting_tombstone_count
            - result.base_tombstone_count,
        strictly_increasing(row_id_values(result.row_ids@)),
        row_id_values(result.row_ids@).to_set() == row_id_values(base@).to_set() + row_id_values(
            appended@,
        ).to_set(),
        result.appended_tombstone_count == row_id_values(appended@).to_set().difference(
            row_id_values(base@).to_set(),
        ).len(),
{
    let base_tombstone_count = base.len();
    let requested_tombstone_count = appended.len();
    let ghost base_values = row_id_values(base@);
    let row_ids = merge_tombstones(base, appended);
    let resulting_tombstone_count = row_ids.len();
    proof {
        let merged = row_id_values(row_ids@);
        lemma_strictly_increasing_no_duplicates(merged);
        merged.unique_seq_to_set();
        base_values.unique_seq_to_set();
        vstd::set_lib::lemma_len_subset(base_values.to_set(), merged.to_set());
        let base_set = base_values.to_set();
        let fresh = row_id_values(appended@).to_set().difference(base_set);
        vstd::seq_lib::seq_to_set_is_finite(base_values);
        vstd::seq_lib::seq_to_set_is_finite(row_id_values(appended@));
        assert(fresh.finite());
        assert(base_set + fresh =~= merged.to_set());
        assert(base_set.disjoint(fresh));
        vstd::set_lib::lemma_set_disjoint_lens(base_set, fresh);
    }
    let appended_tombstone_count = resulting_tombstone_count - base_tombstone_count;
    FSETypedRowTombstoneArchiveAppendResult {
        base_tombstone_count,
        requested_tombstone_count,
        appended_tombstone_count,
        resulting_tombstone_count,
        row_ids,
    }
}

proof fn lemma_strictly_increasing_no_duplicates(values: Seq<u64>)
    requires
        strictly_increasing(values),
    ensures
        values.no_duplicates(),
{
    assert forall|i: int, j: int| 0 <= i < values.len() && 0 <= j < values.len() && i != j implies values[i]
        != values[j] by {
        if i < j {
            assert(values[i] < values[j]);
        } else {
            assert(values[j] < values[i]);
        }
    }
}

/// Loading what saving wrote gives back the saved row identifiers, for every list
/// of unique row identifiers whose archive fits in memory.
pub proof fn lemma_tombstone_save_load_round_trip(row_ids: Seq<RowId>)
    requires
        row_id_values(row_ids).no_duplicates(),
        8 + 8 * row_ids.len() <= usize::MAX,
    ensures
        tombstone_save_contents(row_ids) matches Ok(bytes) && tombstone_load_ids(bytes) == Ok::<
            Seq<u64>,
            FSETypedRowTombstoneArchiveError,
        >(row_id_values(row_ids)),
{
    let ids = row_id_values(row_ids);
    super::tombstone_codec::lemma_tombstone_codec_round_trip(ids);
    let payload = crate::bytes::u64_vec_bytes(ids);
    super::payload::lemma_archive_payload_round_trip(FSEArchivePayloadKind::TypedRowTombstone, payload);
}

/// Loaded tombstones hold each row identifier once.
proof fn lemma_loaded_ids_unique(bytes: Seq<u8>)
    ensures
        tombstone_load_ids(bytes) matches Ok(ids) ==> ids.no_duplicates(),
{
}

/// Appends row identifiers to the tombstones stored in the bytes of a tombstone
/// `.fse` file, as appending to the file does: the request is checked, the
/// stored tombstones are loaded, the union is formed, and the bytes of the file
/// that holds the union are returned with the append result. Loading those
/// bytes gives back the union, in increasing order.
pub fn typed_row_tombstone_append_file_bytes(stored: &[u8], appended: &[RowId]) -> (result: Result<
    (FSETypedRowTombstoneArchiveAppendResult, Vec<u8>),
    FSETypedRowTombstoneArchiveError,
>)
    ensures
        appended@.len() == 0 ==> result == Err::<
            (FSETypedRowTombstoneArchiveAppendResult, Vec<u8>),
            FSETypedRowTombstoneArchiveError,
        >(FSETypedRowTombstoneArchiveError::EmptyAppend),
        appended@.len() > 0 && !row_id_values(appended@).no_duplicates() ==> result == Err::<
            (FSETypedRowTombstoneArchiveAppendResult, Vec<u8>),
            FSETypedRowTombstoneArchiveError,
        >(
            FSETypedRowTombstoneArchiveError::DuplicateAppendedRowId {
                row_id: RowId(smallest_duplicated_value(row_id_values(appended@))),
            },
        ),
        appended@.len() > 0 && row_id_values(appended@).no_duplicates() ==> match tombstone_load_ids(
            stored@,
        ) {
            Err(error) => result == Err::<
                (FSETypedRowTombstoneArchiveAppendResult, Vec<u8>),
                FSETypedRowTombstoneArchiveError,
            >(error),
            Ok(base) => result matches Ok((append, bytes)) && {
                &&& append.base_tombstone_count == base.len()
                &&& append.requested_tombstone_count == appended@.len()
                &&& append.resulting_tombstone_count == append.row_ids@.len()
                &&& append.appended_tombstone_count == append.resulting_tombstone_count
                    - append.base_tombstone_count
                &&& strictly_increasing(row_id_values(append.row_ids@))
                &&& row_id_values(append.row_ids@).to_set() == base.to_set() + row_id_values(
                    appended@,
                ).to_set()
                &&& append.appended_tombstone_count == row_id_values(appended@).to_set().difference(
                    base.to_set(),
                ).len()
                &&& tombstone_save_contents(append.row_ids@) == Ok::<
                    Seq<u8>,
                    FSETypedRowTombstoneArchiveError,
                >(bytes@)
                &&& 8 + 8 * append.row_ids@.len() <= usize::MAX ==> tombstone_load_ids(bytes@)
                    == Ok::<Seq<u64>, FSETypedRowTombstoneArchiveError>(
                    row_id_values(append.row_ids@),
                )
            },
        },
{
    match validate_append_row_ids(appended) {
        Ok(()) => {},
        Err(error) => return Err(error),
    }
    let base = match typed_row_tombstone_row_ids_from_archive_file_bytes(stored) {
        Ok(base) => base,
        Err(error) => return Err(error),
    };
    proof {
        lemma_loaded_ids_unique(stored@);
    }
    let append = typed_row_tombstone_append_result(base, appended);
    proof {
        lemma_strictly_increasing_no_duplicates(row_id_values(append.row_ids@));
        if 8 + 8 * append.row_ids@.len() <= usize::MAX {
            lemma_tombstone_save_load_round_trip(append.row_ids@);
        }
    }
    let bytes = match typed_row_tombstone_archive_file_bytes(append.row_ids.as_slice()) {
        Ok(bytes) => bytes,
        Err(error) => return Err(error),
    };
    Ok((append, bytes))
}

} // verus!
