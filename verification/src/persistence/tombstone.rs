//! Archive snapshots for typed row tombstones.
use vstd::prelude::*;

use crate::data::RowId;
use crate::id_sets::{is_smallest_duplicate, smallest_duplicate};

verus! {

/// Error returned when typed row tombstone archive validation fails.
#[derive(Clone, Copy, Debug, PartialEq, Eq, Structural)]
pub enum FSETypedRowTombstoneArchiveSnapshotError {
    /// A row identifier appears more than once in the tombstone snapshot.
    DuplicateRowId {
        /// Duplicate row identifier.
        row_id: u64,
    },
}

/// Diagnostic text of an error of type `FSETypedRowTombstoneArchiveSnapshotError`.
pub open spec fn tombstone_snapshot_error_message(error: FSETypedRowTombstoneArchiveSnapshotError) -> &'static str {
    match error {
        FSETypedRowTombstoneArchiveSnapshotError::DuplicateRowId { .. } => {
            "typed row tombstone archive row identifiers must be unique"
        },
    }
}

impl FSETypedRowTombstoneArchiveSnapshotError {
    /// Returns the diagnostic message for the error.
    pub fn message(&self) -> (message: &'static str)
        ensures
            message == tombstone_snapshot_error_message(*self),
    {
        match self {
            FSETypedRowTombstoneArchiveSnapshotError::DuplicateRowId { .. } => {
                "typed row tombstone archive row identifiers must be unique"
            },
        }
    }
}

/// The smallest value that occurs twice in `values`.
pub open spec fn smallest_duplicated_value(values: Seq<u64>) -> u64 {
    choose|value: u64| is_smallest_duplicate(values, value)
}

/// Validation outcome of a list of deleted row identifiers.
pub open spec fn tombstone_ids_check(values: Seq<u64>) -> Result<(), FSETypedRowTombstoneArchiveSnapshotError> {
    if values.no_duplicates() {
        Ok(())
    } else {
        Err(
            FSETypedRowTombstoneArchiveSnapshotError::DuplicateRowId {
                row_id: smallest_duplicated_value(values),
            },
        )
    }
}

/// The smallest duplicate is unique, so `smallest_duplicated_value` names it.
pub proof fn lemma_smallest_duplicate_unique(values: Seq<u64>, value: u64)
    requires
        is_smallest_duplicate(values, value),
    ensures
        smallest_duplicated_value(values) == value,
{
    let chosen = smallest_duplicated_value(values);
    assert(is_smallest_duplicate(values, chosen));
}

/// The numeric values of row identifiers.
pub open spec fn row_id_values(row_ids: Seq<RowId>) -> Seq<u64> {
    row_ids.map_values(|row_id: RowId| row_id.0)
}

/// Serializable snapshot of typed rows marked as deleted.
#[derive(Clone, Debug, PartialEq, Eq)]
pub struct FSETypedRowTombstoneArchiveSnapshot {
    /// Deleted row identifiers.
    pub deleted_row_ids: Vec<u64>,
}

impl Default for FSETypedRowTombstoneArchiveSnapshot {
    fn default() -> (snapshot: Self)
        ensures
            snapshot.deleted_row_ids@ == Seq::<u64>::empty(),
    {
        FSETypedRowTombstoneArchiveSnapshot { deleted_row_ids: Vec::new() }
    }
}

fn duplicate_check(values: &[u64]) -> (result: Result<(), FSETypedRowTombstoneArchiveSnapshotError>)
    ensures
        result == tombstone_ids_check(values@),
{
    match smallest_duplicate(values) {
        None => Ok(()),
        Some(row_id) => {
            proof {
                lemma_smallest_duplicate_unique(values@, row_id);
            }
            Err(FSETypedRowTombstoneArchiveSnapshotError::DuplicateRowId { row_id })
        },
    }
}

impl FSETypedRowTombstoneArchiveSnapshot {
    /// Creates a tombstone snapshot from row identifiers.
    pub fn from_row_ids(row_ids: &[RowId]) -> (result: Result<Self, FSETypedRowTombstoneArchiveSnapshotError>)
        ensures
            match tombstone_ids_check(row_id_values(row_ids@)) {
                Ok(()) => result matches Ok(snapshot) && snapshot.deleted_row_ids@ == row_id_values(
                    row_ids@,
                ),
                Err(error) => result == Err::<Self, FSETypedRowTombstoneArchiveSnapshotError>(error),
            },
    {
        let mut deleted_row_ids: Vec<u64> = Vec::with_capacity(row_ids.len());
        let mut index: usize = 0;
        while index < row_ids.len()
            invariant
                index <= row_ids@.len(),
                deleted_row_ids@ == row_id_values(row_ids@.subrange(0, index as int)),
            decreases row_ids@.len() - index,
        {
            deleted_row_ids.push(row_ids[index].value());
            proof {
                assert(row_id_values(row_ids@.subrange(0, index + 1)) =~= row_id_values(
                    row_ids@.subrange(0, index as int),
                ).push(row_ids@[index as int].0));
            }
            index = index + 1;
        }
        proof {
            assert(row_ids@.subrange(0, row_ids@.len() as int) =~= row_ids@);
        }
        let snapshot = FSETypedRowTombstoneArchiveSnapshot { deleted_row_ids };
        match snapshot.validate() {
            Ok(()) => Ok(snapshot),
            Err(error) => Err(error),
        }
    }

    /// Validates the tombstone snapshot.
    pub fn validate(&self) -> (result: Result<(), FSETypedRowTombstoneArchiveSnapshotError>)
        ensures
            result == tombstone_ids_check(self.deleted_row_ids@),
    {
        duplicate_check(self.deleted_row_ids.as_slice())
    }

    /// Rebuilds runtime row identifiers from the tombstone snapshot.
    pub fn to_row_ids(&self) -> (result: Result<Vec<RowId>, FSETypedRowTombstoneArchiveSnapshotError>)
        ensures
            match tombstone_ids_check(self.deleted_row_ids@) {
                Ok(()) => result matches Ok(row_ids) && row_id_values(row_ids@)
                    == self.deleted_row_ids@,
                Err(error) => result == Err::<Vec<RowId>, FSETypedRowTombstoneArchiveSnapshotError>(
                    error,
                ),
            },
    {
        match self.validate() {
            Ok(()) => {},
            Err(error) => return Err(error),
        }
        let mut row_ids: Vec<RowId> = Vec::with_capacity(self.deleted_row_ids.len());
        let mut index: usize = 0;
        while index < self.deleted_row_ids.len()
            invariant
                index <= self.deleted_row_ids@.len(),
                row_id_values(row_ids@) == self.deleted_row_ids@.subrange(0, index as int),
            decreases self.deleted_row_ids@.len() - index,
        {
            let ghost before = row_ids@;
            row_ids.push(RowId::new(self.deleted_row_ids[index]));
            proof {
                assert(row_id_values(row_ids@) =~= row_id_values(before).push(
                    self.deleted_row_ids@[index as int],
                ));
                assert(row_id_values(row_ids@) =~= self.deleted_row_ids@.subrange(0, index + 1));
            }
            index = index + 1;
        }
        proof {
            assert(self.deleted_row_ids@.subrange(0, self.deleted_row_ids@.len() as int)
                =~= self.deleted_row_ids@);
        }
        Ok(row_ids)
    }

    /// Returns whether the snapshot contains a row identifier.
    pub fn contains(&self, row_id: RowId) -> (found: bool)
        ensures
            found == self.deleted_row_ids@.contains(row_id.0),
    {
        let mut index: usize = 0;
        while index < self.deleted_row_ids.len()
            invariant
                index <= self.deleted_row_ids@.len(),
                forall|i: int| 0 <= i < index ==> self.deleted_row_ids@[i] != row_id.0,
            decreases self.deleted_row_ids@.len() - index,
        {
            if self.deleted_row_ids[index] == row_id.value() {
                return true;
            }
            index = index + 1;
        }
        false
    }

    /// Returns the number of tombstones in the snapshot.
    pub fn len(&self) -> (count: usize)
        ensures
            count == self.deleted_row_ids@.len(),
    {
        self.deleted_row_ids.len()
    }

    /// Returns whether the snapshot contains no tombstones.
    pub fn is_empty(&self) -> (empty: bool)
        ensures
            empty == (self.deleted_row_ids@.len() == 0),
    {
        self.deleted_row_ids.len() == 0
    }
}

} // verus!
