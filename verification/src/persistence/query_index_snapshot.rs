//! Consistency rules between the parts of a typed query index archive snapshot.
use vstd::prelude::*;
use vstd::relations::{sorted_by, total_ordering};
use vstd::seq_lib::{lemma_sorted_unique, to_multiset_build, to_multiset_insert, to_multiset_len};
use vstd::std_specs::convert::FromSpecImpl;

use super::row_mapping::{
    mapped_row_ids, row_mapped_snapshot_error_message, FSELeafRowIdArchiveRecord,
    FSERowMappedArchiveSnapshotError,
};

verus! {

/// Error returned when typed query index archive snapshot validation fails.
#[derive(Clone, Debug, PartialEq, Eq)]
pub enum FSETypedQueryIndexArchiveSnapshotError {
    /// The row-mapped index snapshot is invalid.
    Index(FSERowMappedArchiveSnapshotError),
    /// The index and batch snapshots contain different row-id counts.
    RowIdCountMismatch {
        /// Number of row identifiers stored by the row-mapped index snapshot.
        indexed_row_id_count: usize,
        /// Number of row identifiers stored by the typed record batch snapshot.
        batch_row_id_count: usize,
    },
    /// The index and batch snapshots contain different row identifiers.
    RowIdMismatch {
        /// Row identifier found in index row-id order.
        indexed_row_id: u64,
        /// Row identifier found in batch row-id order.
        batch_row_id: u64,
    },
}

/// Diagnostic text of a typed query index snapshot error.
pub open spec fn query_index_snapshot_error_message(error: FSETypedQueryIndexArchiveSnapshotError) -> &'static str {
    match error {
        FSETypedQueryIndexArchiveSnapshotError::Index(error) => row_mapped_snapshot_error_message(
            error,
        ),
        FSETypedQueryIndexArchiveSnapshotError::RowIdCountMismatch { .. } => {
            "typed query index archive row-id counts must match"
        },
        FSETypedQueryIndexArchiveSnapshotError::RowIdMismatch { .. } => {
            "typed query index archive row identifiers must match"
        },
    }
}

impl FSETypedQueryIndexArchiveSnapshotError {
    /// Returns the diagnostic message for the error.
    pub fn message(&self) -> (message: &'static str)
        ensures
            message == query_index_snapshot_error_message(*self),
    {
        match self {
            FSETypedQueryIndexArchiveSnapshotError::Index(error) => error.message(),
            FSETypedQueryIndexArchiveSnapshotError::RowIdCountMismatch { .. } => {
                "typed query index archive row-id counts must match"
            },
            FSETypedQueryIndexArchiveSnapshotError::RowIdMismatch { .. } => {
                "typed query index archive row identifiers must match"
            },
        }
    }
}

impl From<FSERowMappedArchiveSnapshotError> for FSETypedQueryIndexArchiveSnapshotError {
    fn from(error: FSERowMappedArchiveSnapshotError) -> (converted: Self) {
        FSETypedQueryIndexArchiveSnapshotError::Index(error)
    }
}

impl FromSpecImpl<FSERowMappedArchiveSnapshotError> for FSETypedQueryIndexArchiveSnapshotError {
    open spec fn obeys_from_spec() -> bool {
        true
    }

    open spec fn from_spec(error: FSERowMappedArchiveSnapshotError) -> Self {
        FSETypedQueryIndexArchiveSnapshotError::Index(error)
    }
}

/// The order in which row identifiers are sorted.
pub open spec fn row_id_leq() -> spec_fn(u64, u64) -> bool {
    |a: u64, b: u64| a <= b
}

/// Row identifiers in ascending order.
pub open spec fn sorted_row_ids(ids: Seq<u64>) -> Seq<u64> {
    ids.sort_by(row_id_leq())
}

/// First position, at or after `from`, where two sequences of row identifiers differ.
pub open spec fn first_difference(left: Seq<u64>, right: Seq<u64>, from: int) -> Option<int>
    decreases left.len() - from,
{
    if from < 0 || from >= left.len() {
        None
    } else if left[from] != right[from] {
        Some(from)
    } else {
        first_difference(left, right, from + 1)
    }
}

/// The outcome of comparing the row identifiers of the index with those of the
/// batch: both are sorted, their counts compared, then their values in order.
pub open spec fn row_identity_check(indexed: Seq<u64>, batch: Seq<u64>) -> Result<
    (),
    FSETypedQueryIndexArchiveSnapshotError,
> {
    let sorted_indexed = sorted_row_ids(indexed);
    let sorted_batch = sorted_row_ids(batch);
    if indexed.len() != batch.len() {
        Err(
            FSETypedQueryIndexArchiveSnapshotError::RowIdCountMismatch {
                indexed_row_id_count: indexed.len() as usize,
                batch_row_id_count: batch.len() as usize,
            },
        )
    } else {
        match first_difference(sorted_indexed, sorted_batch, 0) {
            Some(position) => Err(
                FSETypedQueryIndexArchiveSnapshotError::RowIdMismatch {
                    indexed_row_id: sorted_indexed[position],
                    batch_row_id: sorted_batch[position],
                },
            ),
            None => Ok(()),
        }
    }
}

proof fn lemma_row_id_leq_total()
    ensures
        total_ordering(row_id_leq()),
{
}

/// Sorting keeps the row identifiers and their count, and puts them in order.
proof fn lemma_sorted_row_ids(ids: Seq<u64>)
    ensures
        sorted_row_ids(ids).to_multiset() == ids.to_multiset(),
        sorted_row_ids(ids).len() == ids.len(),
        forall|i: int, j: int|
            0 <= i < j < sorted_row_ids(ids).len() ==> #[trigger] sorted_row_ids(ids)[i]
                <= #[trigger] sorted_row_ids(ids)[j],
{
    lemma_row_id_leq_total();
    ids.lemma_sort_by_ensures(row_id_leq());
    to_multiset_len(ids);
    to_multiset_len(sorted_row_ids(ids));
    assert forall|i: int, j: int|
        0 <= i < j < sorted_row_ids(ids).len() implies #[trigger] sorted_row_ids(ids)[i]
        <= #[trigger] sorted_row_ids(ids)[j] by {
        assert((row_id_leq())(sorted_row_ids(ids)[i], sorted_row_ids(ids)[j]));
    }
}

/// A sequence in ascending order with the same row identifiers as `ids` is the
/// sorted form of `ids`.
proof fn lemma_ascending_is_sorted(candidate: Seq<u64>, ids: Seq<u64>)
    requires
        forall|i: int, j: int| 0 <= i < j < candidate.len() ==> #[trigger] candidate[i] <= #[trigger] candidate[j],
        candidate.to_multiset() == ids.to_multiset(),
    ensures
        candidate == sorted_row_ids(ids),
{
    lemma_row_id_leq_total();
    ids.lemma_sort_by_ensures(row_id_leq());
    assert(sorted_by(candidate, row_id_leq())) by {
        assert forall|i: int, j: int| 0 <= i < j < candidate.len() implies #[trigger] (row_id_leq())(
            candidate[i],
            candidate[j],
        ) by {
            assert(candidate[i] <= candidate[j]);
        }
    }
    lemma_sorted_unique(candidate, sorted_row_ids(ids), row_id_leq());
}

/// Returns the row identifiers in ascending order.
pub fn sort_row_ids(ids: &[u64]) -> (sorted: Vec<u64>)
    ensures
        sorted@ == sorted_row_ids(ids@),
{
    let mut out: Vec<u64> = Vec::with_capacity(ids.len());
    let mut index: usize = 0;
    assert(out@ =~= ids@.subrange(0, 0));
    while index < ids.len()
        invariant
            index <= ids@.len(),
            out@.len() == index,
            forall|i: int, j: int| 0 <= i < j < out@.len() ==> #[trigger] out@[i] <= #[trigger] out@[j],
            out@.to_multiset() == ids@.subrange(0, index as int).to_multiset(),
        decreases ids@.len() - index,
    {
        let value = ids[index];
        let mut position: usize = 0;
        while position < out.len() && out[position] <= value
            invariant
                position <= out@.len(),
                forall|k: int| 0 <= k < position ==> #[trigger] out@[k] <= value,
            decreases out@.len() - position,
        {
            position = position + 1;
        }
        let ghost before = out@;
        out.insert(position, value);
        proof {
            to_multiset_insert(before, position as int, value);
            to_multiset_build(ids@.subrange(0, index as int), value);
            assert(ids@.subrange(0, index + 1) =~= ids@.subrange(0, index as int).push(value));
            assert forall|i: int, j: int| 0 <= i < j < out@.len() implies #[trigger] out@[i]
                <= #[trigger] out@[j] by {
                if position < before.len() {
                    assert(before[position as int] > value);
                }
                if j < position {
                    assert(out@[i] == before[i] && out@[j] == before[j]);
                } else if j == position {
                    assert(out@[i] == before[i]);
                } else if i < position {
                    assert(out@[i] == before[i] && out@[j] == before[j - 1]);
                    assert(before[position as int] <= before[j - 1]);
                } else if i == position {
                    assert(out@[j] == before[j - 1]);
                    assert(before[position as int] <= before[j - 1]);
                } else {
                    assert(out@[i] == before[i - 1] && out@[j] == before[j - 1]);
                }
            }
        }
        index = index + 1;
    }
    proof {
        assert(ids@.subrange(0, ids@.len() as int) =~= ids@);
        lemma_ascending_is_sorted(out@, ids@);
    }
    out
}

/// Returns all row identifiers of the leaf records, in record order.
pub fn collect_mapped_row_ids(leaf_row_id_records: &[FSELeafRowIdArchiveRecord]) -> (row_ids: Vec<u64>)
    requires
        mapped_row_ids(leaf_row_id_records@).len() <= usize::MAX,
    ensures
        row_ids@ == mapped_row_ids(leaf_row_id_records@),
{
    let mut row_ids: Vec<u64> = Vec::new();
    let mut index: usize = 0;
    while index < leaf_row_id_records.len()
        invariant
            index <= leaf_row_id_records@.len(),
            mapped_row_ids(leaf_row_id_records@).len() <= usize::MAX,
            row_ids@ == mapped_row_ids(leaf_row_id_records@.subrange(0, index as int)),
        decreases leaf_row_id_records@.len() - index,
    {
        let record = &leaf_row_id_records[index];
        proof {
            assert(leaf_row_id_records@.subrange(0, index + 1).drop_last() =~= leaf_row_id_records@.subrange(
                0,
                index as int,
            ));
            lemma_mapped_row_ids_prefix_len(leaf_row_id_records@, index + 1);
        }
        let mut inner: usize = 0;
        while inner < record.row_ids.len()
            invariant
                inner <= record.row_ids@.len(),
                row_ids@ == mapped_row_ids(leaf_row_id_records@.subrange(0, index as int))
                    + record.row_ids@.subrange(0, inner as int),
                mapped_row_ids(leaf_row_id_records@.subrange(0, index as int)).len()
                    + record.row_ids@.len() <= usize::MAX,
            decreases record.row_ids@.len() - inner,
        {
            row_ids.push(record.row_ids[inner]);
            proof {
                assert(record.row_ids@.subrange(0, inner + 1) =~= record.row_ids@.subrange(
                    0,
                    inner as int,
                ).push(record.row_ids@[inner as int]));
                assert(row_ids@ =~= mapped_row_ids(leaf_row_id_records@.subrange(0, index as int))
                    + record.row_ids@.subrange(0, inner + 1));
            }
            inner = inner + 1;
        }
        proof {
            assert(record.row_ids@.subrange(0, record.row_ids@.len() as int) =~= record.row_ids@);
        }
        index = index + 1;
    }
    proof {
        assert(leaf_row_id_records@.subrange(0, leaf_row_id_records@.len() as int)
            =~= leaf_row_id_records@);
    }
    row_ids
}

/// The row identifiers of a prefix of the records are no more than those of all
/// records.
proof fn lemma_mapped_row_ids_prefix_len(records: Seq<FSELeafRowIdArchiveRecord>, count: int)
    requires
        0 <= count <= records.len(),
    ensures
        mapped_row_ids(records.subrange(0, count)).len() <= mapped_row_ids(records).len(),
    decreases records.len() - count,
{
    if count < records.len() {
        lemma_mapped_row_ids_prefix_len(records, count + 1);
        assert(records.subrange(0, count + 1).drop_last() =~= records.subrange(0, count));
    } else {
        assert(records.subrange(0, count) =~= records);
    }
}

/// Checks that the leaf records of a row-mapped index hold the same row
/// identifiers as the batch, counting repeats: both lists are sorted, their
/// counts compared, then their values in order.
pub fn validate_row_identity(
    leaf_row_id_records: &[FSELeafRowIdArchiveRecord],
    batch_row_ids: &[u64],
) -> (result: Result<(), FSETypedQueryIndexArchiveSnapshotError>)
    requires
        mapped_row_ids(leaf_row_id_records@).len() <= usize::MAX,
    ensures
        result == row_identity_check(mapped_row_ids(leaf_row_id_records@), batch_row_ids@),
{
    let indexed = collect_mapped_row_ids(leaf_row_id_records);
    let indexed_sorted = sort_row_ids(indexed.as_slice());
    let batch_sorted = sort_row_ids(batch_row_ids);
    proof {
        lemma_sorted_row_ids(indexed@);
        lemma_sorted_row_ids(batch_row_ids@);
    }
    if indexed_sorted.len() != batch_sorted.len() {
        return Err(
            FSETypedQueryIndexArchiveSnapshotError::RowIdCountMismatch {
                indexed_row_id_count: indexed_sorted.len(),
                batch_row_id_count: batch_sorted.len(),
            },
        );
    }
    let mut position: usize = 0;
    while position < indexed_sorted.len()
        invariant
            indexed_sorted@ == sorted_row_ids(mapped_row_ids(leaf_row_id_records@)),
            batch_sorted@ == sorted_row_ids(batch_row_ids@),
            mapped_row_ids(leaf_row_id_records@).len() == batch_row_ids@.len(),
            indexed_sorted@.len() == batch_sorted@.len(),
            position <= indexed_sorted@.len(),
            first_difference(indexed_sorted@, batch_sorted@, 0) == first_difference(
                indexed_sorted@,
                batch_sorted@,
                position as int,
            ),
        decreases indexed_sorted@.len() - position,
    {
        if indexed_sorted[position] != batch_sorted[position] {
            return Err(
                FSETypedQueryIndexArchiveSnapshotError::RowIdMismatch {
                    indexed_row_id: indexed_sorted[position],
                    batch_row_id: batch_sorted[position],
                },
            );
        }
        position = position + 1;
    }
    Ok(())
}

/// Row identity holds exactly when the index and the batch hold the same row
/// identifiers, each as many times.
pub proof fn lemma_row_identity_matches_multisets(indexed: Seq<u64>, batch: Seq<u64>)
    ensures
        row_identity_check(indexed, batch) is Ok <==> indexed.to_multiset() == batch.to_multiset(),
{
    lemma_sorted_row_ids(indexed);
    lemma_sorted_row_ids(batch);
    let sorted_indexed = sorted_row_ids(indexed);
    let sorted_batch = sorted_row_ids(batch);
    if indexed.to_multiset() == batch.to_multiset() {
        to_multiset_len(indexed);
        to_multiset_len(batch);
        lemma_row_id_leq_total();
        indexed.lemma_sort_by_ensures(row_id_leq());
        batch.lemma_sort_by_ensures(row_id_leq());
        lemma_sorted_unique(sorted_indexed, sorted_batch, row_id_leq());
        lemma_no_difference_when_equal(sorted_indexed, sorted_batch, 0);
    }
    if row_identity_check(indexed, batch) is Ok {
        lemma_equal_when_no_difference(sorted_indexed, sorted_batch, 0);
        assert(sorted_indexed =~= sorted_batch);
    }
}

proof fn lemma_no_difference_when_equal(left: Seq<u64>, right: Seq<u64>, from: int)
    requires
        left == right,
        0 <= from,
    ensures
        first_difference(left, right, from) is None,
    decreases left.len() - from,
{
    if from < left.len() {
        lemma_no_difference_when_equal(left, right, from + 1);
    }
}

proof fn lemma_equal_when_no_difference(left: Seq<u64>, right: Seq<u64>, from: int)
    requires
        0 <= from,
        first_difference(left, right, from) is None,
    ensures
        forall|i: int| from <= i < left.len() ==> left[i] == right[i],
    decreases left.len() - from,
{
    if from < left.len() {
        lemma_equal_when_no_difference(left, right, from + 1);
    }
}

} // verus!
