//! Removing tombstoned rows from a typed record batch before an index rebuild.
use vstd::prelude::*;

use crate::data::RowId;

use super::batch_section::clone_value;
use super::query_index_file::{query_index_archive_error_message, FSETypedQueryIndexArchiveError};
use super::record_batch::{FSEFieldArchiveRecord, FSERecordArchiveRecord, FSERecordBatchArchiveSnapshot};
use super::tombstone::FSETypedRowTombstoneArchiveSnapshot;
use super::tombstone_file::{tombstone_archive_error_message, FSETypedRowTombstoneArchiveError};

use super::query_index_file::query_index_archive_error_text;
use crate::text::owned_text;

verus! {

/// Error returned when loading a tombstoned typed query index archive fails.
#[derive(Clone, Debug, PartialEq, Eq)]
pub enum FSETombstonedTypedQueryIndexArchiveError {
    /// Loading the typed query index archive failed.
    QueryIndex(FSETypedQueryIndexArchiveError),
    /// Loading the typed row tombstone archive failed.
    Tombstones(FSETypedRowTombstoneArchiveError),
}

/// Diagnostic text of an error of type `FSETombstonedTypedQueryIndexArchiveError`.
pub open spec fn tombstoned_archive_error_message(error: FSETombstonedTypedQueryIndexArchiveError) -> &'static str {
    match error {
        FSETombstonedTypedQueryIndexArchiveError::QueryIndex(error) => query_index_archive_error_message(error),
        FSETombstonedTypedQueryIndexArchiveError::Tombstones(error) => tombstone_archive_error_message(error),
    }
}

impl FSETombstonedTypedQueryIndexArchiveError {
    /// Returns the diagnostic message for the error.
    pub fn message(&self) -> (message: &'static str)
        ensures
            message == tombstoned_archive_error_message(*self),
    {
        match self {
            FSETombstonedTypedQueryIndexArchiveError::QueryIndex(error) => error.message(),
            FSETombstonedTypedQueryIndexArchiveError::Tombstones(error) => error.message(),
        }
    }
}

/// Diagnostic text of an error of type `FSETombstonedTypedQueryIndexArchiveError`, carrying the values that the
/// wrapped errors name.
pub open spec fn tombstoned_archive_error_text(error: FSETombstonedTypedQueryIndexArchiveError) -> Seq<char> {
    match error {
        FSETombstonedTypedQueryIndexArchiveError::QueryIndex(error) => query_index_archive_error_text(error),
        _ => tombstoned_archive_error_message(error)@,
    }
}

impl FSETombstonedTypedQueryIndexArchiveError {
    /// Returns the diagnostic text for the error, carrying the values that the
    /// wrapped errors name.
    pub fn description(&self) -> (text: String)
        ensures
            text@ == tombstoned_archive_error_text(*self),
    {
        match self {
            FSETombstonedTypedQueryIndexArchiveError::QueryIndex(error) => error.description(),
            _ => owned_text(self.message()),
        }
    }
}

impl From<FSETypedQueryIndexArchiveError> for FSETombstonedTypedQueryIndexArchiveError {
    fn from(error: FSETypedQueryIndexArchiveError) -> (converted: Self) {
        FSETombstonedTypedQueryIndexArchiveError::QueryIndex(error)
    }
}

impl vstd::std_specs::convert::FromSpecImpl<FSETypedQueryIndexArchiveError> for FSETombstonedTypedQueryIndexArchiveError {
    open spec fn obeys_from_spec() -> bool {
        true
    }

    open spec fn from_spec(error: FSETypedQueryIndexArchiveError) -> Self {
        FSETombstonedTypedQueryIndexArchiveError::QueryIndex(error)
    }
}

impl From<FSETypedRowTombstoneArchiveError> for FSETombstonedTypedQueryIndexArchiveError {
    fn from(error: FSETypedRowTombstoneArchiveError) -> (converted: Self) {
        FSETombstonedTypedQueryIndexArchiveError::Tombstones(error)
    }
}

impl vstd::std_specs::convert::FromSpecImpl<FSETypedRowTombstoneArchiveError> for FSETombstonedTypedQueryIndexArchiveError {
    open spec fn obeys_from_spec() -> bool {
        true
    }

    open spec fn from_spec(error: FSETypedRowTombstoneArchiveError) -> Self {
        FSETombstonedTypedQueryIndexArchiveError::Tombstones(error)
    }
}

/// Error returned when typed query index compaction fails.
#[derive(Clone, Debug, PartialEq, Eq)]
pub enum FSETypedQueryIndexCompactionError {
    /// Compaction would remove every record in the source index.
    EmptyRetainedRecordSet {
        /// Number of records in the source typed query index.
        base_record_count: usize,
        /// Number of tombstones provided to the compaction operation.
        tombstone_count: usize,
    },
}

impl FSETypedQueryIndexCompactionError {
    /// Returns the diagnostic message for the error.
    pub fn message(&self) -> (message: &'static str)
        ensures
            message == "typed query index compaction retained no records",
    {
        match self {
            FSETypedQueryIndexCompactionError::EmptyRetainedRecordSet { .. } => {
                "typed query index compaction retained no records"
            },
        }
    }
}

/// Positions among the first `n` rows whose row id is not tombstoned, in order.
pub open spec fn retained_positions(row_ids: Seq<u64>, deleted: Seq<u64>, n: int) -> Seq<int>
    decreases n,
{
    if n <= 0 {
        Seq::empty()
    } else {
        let before = retained_positions(row_ids, deleted, n - 1);
        if deleted.contains(row_ids[n - 1]) {
            before
        } else {
            before.push(n - 1)
        }
    }
}

/// Number of rows of a batch: its row ids and records are read in pairs.
pub open spec fn batch_row_count(batch: FSERecordBatchArchiveSnapshot) -> int {
    if batch.row_ids@.len() <= batch.records@.len() {
        batch.row_ids@.len() as int
    } else {
        batch.records@.len() as int
    }
}

/// `compacted` is `batch` without its tombstoned rows: the same schema, and the
/// retained rows with their record values, in the order they had.
pub open spec fn is_compaction_of(
    compacted: FSERecordBatchArchiveSnapshot,
    batch: FSERecordBatchArchiveSnapshot,
    deleted: Seq<u64>,
) -> bool {
    let kept = retained_positions(batch.row_ids@, deleted, batch_row_count(batch));
    &&& compacted.schema_fields@ == batch.schema_fields@
    &&& compacted.row_ids@.len() == kept.len()
    &&& compacted.records@.len() == kept.len()
    &&& forall|k: int|
        0 <= k < kept.len() ==> compacted.row_ids@[k] == batch.row_ids@[#[trigger] kept[k]]
            && compacted.records@[k].values@ == batch.records@[kept[k]].values@
}

proof fn lemma_retained_positions_bounds(row_ids: Seq<u64>, deleted: Seq<u64>, n: int)
    ensures
        retained_positions(row_ids, deleted, n).len() <= if n <= 0 { 0 } else { n },
        forall|k: int|
            0 <= k < retained_positions(row_ids, deleted, n).len() ==> 0 <= #[trigger] retained_positions(
                row_ids,
                deleted,
                n,
            )[k] < n,
    decreases n,
{
    if n > 0 {
        lemma_retained_positions_bounds(row_ids, deleted, n - 1);
    }
}

proof fn lemma_retained_positions_exact(row_ids: Seq<u64>, deleted: Seq<u64>, n: int)
    requires
        n <= row_ids.len(),
    ensures
        forall|k: int|
            0 <= k < retained_positions(row_ids, deleted, n).len() ==> !deleted.contains(
                row_ids[#[trigger] retained_positions(row_ids, deleted, n)[k]],
            ),
        forall|p: int|
            0 <= p < n && !deleted.contains(#[trigger] row_ids[p]) ==> exists|k: int|
                0 <= k < retained_positions(row_ids, deleted, n).len() && #[trigger] retained_positions(
                    row_ids,
                    deleted,
                    n,
                )[k] == p,
    decreases n,
{
    if n > 0 {
        lemma_retained_positions_exact(row_ids, deleted, n - 1);
        let before = retained_positions(row_ids, deleted, n - 1);
        let after = retained_positions(row_ids, deleted, n);
        assert forall|p: int| 0 <= p < n && !deleted.contains(#[trigger] row_ids[p]) implies exists|k: int|
            0 <= k < after.len() && #[trigger] after[k] == p by {
            if p < n - 1 {
                let k = choose|k: int| 0 <= k < before.len() && #[trigger] before[k] == p;
                assert(after[k] == p);
            } else {
                assert(after[before.len() as int] == p);
            }
        }
    }
}

/// Compaction keeps exactly the rows whose row id is not tombstoned: no retained
/// row is tombstoned, and every row that is not tombstoned is retained with its
/// values.
pub proof fn lemma_compaction_keeps_live_rows(
    compacted: FSERecordBatchArchiveSnapshot,
    batch: FSERecordBatchArchiveSnapshot,
    deleted: Seq<u64>,
)
    requires
        is_compaction_of(compacted, batch, deleted),
    ensures
        forall|k: int|
            0 <= k < compacted.row_ids@.len() ==> !deleted.contains(#[trigger] compacted.row_ids@[k]),
        forall|p: int|
            0 <= p < batch_row_count(batch) && !deleted.contains(#[trigger] batch.row_ids@[p])
                ==> exists|k: int|
                0 <= k < compacted.row_ids@.len() && #[trigger] compacted.row_ids@[k] == batch.row_ids@[p]
                    && compacted.records@[k].values@ == batch.records@[p].values@,
{
    let kept = retained_positions(batch.row_ids@, deleted, batch_row_count(batch));
    lemma_retained_positions_exact(batch.row_ids@, deleted, batch_row_count(batch));
    assert forall|k: int| 0 <= k < compacted.row_ids@.len() implies !deleted.contains(
        #[trigger] compacted.row_ids@[k],
    ) by {
        assert(compacted.row_ids@[k] == batch.row_ids@[kept[k]]);
    }
    assert forall|p: int|
        0 <= p < batch_row_count(batch) && !deleted.contains(#[trigger] batch.row_ids@[p]) implies exists|k: int|
        0 <= k < compacted.row_ids@.len() && #[trigger] compacted.row_ids@[k] == batch.row_ids@[p]
            && compacted.records@[k].values@ == batch.records@[p].values@ by {
        let k = choose|k: int| 0 <= k < kept.len() && #[trigger] kept[k] == p;
        assert(compacted.row_ids@[k] == batch.row_ids@[kept[k]]);
    }
}

fn clone_field(field: &FSEFieldArchiveRecord) -> (copy: FSEFieldArchiveRecord)
    ensures
        copy == *field,
{
    FSEFieldArchiveRecord { name: field.name.clone(), field_type: field.field_type, nullable: field.nullable }
}

fn clone_record(record: &FSERecordArchiveRecord) -> (copy: FSERecordArchiveRecord)
    ensures
        copy.values@ == record.values@,
{
    let mut values = Vec::with_capacity(record.values.len());
    let mut index: usize = 0;
    while index < record.values.len()
        invariant
            index <= record.values@.len(),
            values@ == record.values@.subrange(0, index as int),
        decreases record.values@.len() - index,
    {
        values.push(clone_value(&record.values[index]));
        proof {
            assert(values@ =~= record.values@.subrange(0, index + 1));
        }
        index = index + 1;
    }
    assert(values@ =~= record.values@);
    FSERecordArchiveRecord { values }
}

/// Removes the rows whose row id is tombstoned, and returns the retained batch
/// with the number of rows removed.
pub fn compact_record_batch(
    batch: &FSERecordBatchArchiveSnapshot,
    tombstones: &FSETypedRowTombstoneArchiveSnapshot,
) -> (result: (FSERecordBatchArchiveSnapshot, usize))
    ensures
        is_compaction_of(result.0, *batch, tombstones.deleted_row_ids@),
        result.1 == batch_row_count(*batch) - result.0.records@.len(),
{
    let mut schema_fields: Vec<FSEFieldArchiveRecord> = Vec::with_capacity(batch.schema_fields.len());
    let mut index: usize = 0;
    while index < batch.schema_fields.len()
        invariant
            index <= batch.schema_fields@.len(),
            schema_fields@ == batch.schema_fields@.subrange(0, index as int),
        decreases batch.schema_fields@.len() - index,
    {
        schema_fields.push(clone_field(&batch.schema_fields[index]));
        proof {
            assert(schema_fields@ =~= batch.schema_fields@.subrange(0, index + 1));
        }
        index = index + 1;
    }
    assert(schema_fields@ =~= batch.schema_fields@);
    let count = if batch.row_ids.len() <= batch.records.len() {
        batch.row_ids.len()
    } else {
        batch.records.len()
    };
    let ghost deleted = tombstones.deleted_row_ids@;
    let mut row_ids: Vec<u64> = Vec::with_capacity(count);
    let mut records: Vec<FSERecordArchiveRecord> = Vec::with_capacity(count);
    let mut removed: usize = 0;
    let mut position: usize = 0;
    while position < count
        invariant
            count == batch_row_count(*batch),
            count <= batch.row_ids@.len(),
            count <= batch.records@.len(),
            deleted == tombstones.deleted_row_ids@,
            position <= count,
            row_ids@.len() == retained_positions(batch.row_ids@, deleted, position as int).len(),
            records@.len() == row_ids@.len(),
            removed + row_ids@.len() == position,
            forall|k: int|
                0 <= k < row_ids@.len() ==> row_ids@[k] == batch.row_ids@[#[trigger] retained_positions(
                    batch.row_ids@,
                    deleted,
                    position as int,
                )[k]] && records@[k].values@ == batch.records@[retained_positions(
                    batch.row_ids@,
                    deleted,
                    position as int,
                )[k]].values@,
        decreases count - position,
    {
        let row_id = batch.row_ids[position];
        let ghost before = retained_positions(batch.row_ids@, deleted, position as int);
        proof {
            lemma_retained_positions_bounds(batch.row_ids@, deleted, position as int);
        }
        if tombstones.contains(RowId::new(row_id)) {
            removed = removed + 1;
            assert(retained_positions(batch.row_ids@, deleted, position + 1) == before);
        } else {
            row_ids.push(row_id);
            records.push(clone_record(&batch.records[position]));
            let ghost after = retained_positions(batch.row_ids@, deleted, position + 1);
            assert(after == before.push(position as int));
            assert forall|k: int| 0 <= k < row_ids@.len() implies row_ids@[k] == batch.row_ids@[
                #[trigger] after[k]] && records@[k].values@ == batch.records@[after[k]].values@ by {
                if k < before.len() {
                    assert(after[k] == before[k]);
                }
            }
        }
        position = position + 1;
    }
    let compacted = FSERecordBatchArchiveSnapshot { schema_fields, row_ids, records };
    (compacted, removed)
}

/// Compacts a batch for a rebuild: the batch without its tombstoned rows, the
/// number of rows removed, or an error when no row is retained.
pub fn compact_record_batch_for_rebuild(
    batch: &FSERecordBatchArchiveSnapshot,
    tombstones: &FSETypedRowTombstoneArchiveSnapshot,
) -> (result: Result<(FSERecordBatchArchiveSnapshot, usize), FSETypedQueryIndexCompactionError>)
    ensures
        retained_positions(batch.row_ids@, tombstones.deleted_row_ids@, batch_row_count(*batch)).len()
            == 0 <==> (result is Err),
        result matches Err(error) ==> error == (FSETypedQueryIndexCompactionError::EmptyRetainedRecordSet {
            base_record_count: batch.records@.len() as usize,
            tombstone_count: tombstones.deleted_row_ids@.len() as usize,
        }),
        result matches Ok((compacted, removed)) ==> is_compaction_of(
            compacted,
            *batch,
            tombstones.deleted_row_ids@,
        ) && removed == batch_row_count(*batch) - compacted.records@.len(),
{
    let base_record_count = batch.records.len();
    let tombstone_count = tombstones.len();
    let (compacted, removed) = compact_record_batch(batch, tombstones);
    if compacted.records.len() == 0 {
        return Err(
            FSETypedQueryIndexCompactionError::EmptyRetainedRecordSet { base_record_count, tombstone_count },
        );
    }
    Ok((compacted, removed))
}

} // verus!
