//! Row-identifier mappings attached to the leaves of an index archive snapshot.
use std::collections::BTreeSet;
use vstd::prelude::*;
use vstd::std_specs::convert::FromSpecImpl;

use super::snapshot::{archive_snapshot_error_message, FSEArchiveSnapshotError};

verus! {

broadcast use {vstd::std_specs::btree::group_btree_axioms, vstd::laws_cmp::group_laws_cmp};

/// Error returned when row-mapped archive snapshot validation fails.
#[derive(Clone, Debug, PartialEq, Eq)]
pub enum FSERowMappedArchiveSnapshotError {
    /// The embedded index snapshot is invalid.
    Index(FSEArchiveSnapshotError),
    /// A row-id record referenced a node outside the index snapshot.
    UnknownNode {
        /// Node id found in the row-id record.
        node_id: u64,
        /// Number of nodes stored by the index snapshot.
        node_count: u64,
    },
    /// A row-id record referenced an internal node.
    InternalNodeMapping {
        /// Internal node id found in the row-id record.
        node_id: u64,
    },
    /// A leaf node had more than one row-id record.
    DuplicateLeafMapping {
        /// Leaf node id with duplicate row-id records.
        node_id: u64,
    },
    /// A leaf node did not have a row-id record.
    MissingLeafMapping {
        /// Leaf node id without a row-id record.
        node_id: u64,
    },
    /// A leaf row-id record did not match the residual row count.
    LeafRowIdCountMismatch {
        /// Leaf node id containing the mismatch.
        node_id: u64,
        /// Number of row identifiers stored by the row-id record.
        row_id_count: u64,
        /// Number of residual rows stored by the leaf node.
        leaf_row_count: u64,
    },
    /// A row identifier appeared more than once in the row mapping.
    DuplicateRowId {
        /// Repeated row identifier.
        row_id: u64,
    },
    /// A numeric archive field cannot be represented by the runtime type.
    ValueOutOfRange {
        /// Field being converted.
        field: &'static str,
        /// Value found in the archive record.
        value: u64,
    },
}

/// Diagnostic text of a row-mapped archive snapshot error.
pub open spec fn row_mapped_snapshot_error_message(error: FSERowMappedArchiveSnapshotError) -> &'static str {
    match error {
        FSERowMappedArchiveSnapshotError::Index(error) => archive_snapshot_error_message(error),
        FSERowMappedArchiveSnapshotError::UnknownNode { .. } => {
            "row-id mapping node id must exist in the index snapshot"
        },
        FSERowMappedArchiveSnapshotError::InternalNodeMapping { .. } => {
            "row-id mappings must reference leaf nodes"
        },
        FSERowMappedArchiveSnapshotError::DuplicateLeafMapping { .. } => {
            "leaf nodes must have at most one row-id mapping"
        },
        FSERowMappedArchiveSnapshotError::MissingLeafMapping { .. } => {
            "leaf nodes must have row-id mappings"
        },
        FSERowMappedArchiveSnapshotError::LeafRowIdCountMismatch { .. } => {
            "leaf row-id count must match residual row count"
        },
        FSERowMappedArchiveSnapshotError::DuplicateRowId { .. } => {
            "row ids must be unique across the row mapping"
        },
        FSERowMappedArchiveSnapshotError::ValueOutOfRange { .. } => {
            "row-mapping archive field is outside the runtime range"
        },
    }
}

impl FSERowMappedArchiveSnapshotError {
    /// Returns the diagnostic message for the error.
    pub fn message(&self) -> (message: &'static str)
        ensures
            message == row_mapped_snapshot_error_message(*self),
    {
        match self {
            FSERowMappedArchiveSnapshotError::Index(error) => error.message(),
            FSERowMappedArchiveSnapshotError::UnknownNode { .. } => {
                "row-id mapping node id must exist in the index snapshot"
            },
            FSERowMappedArchiveSnapshotError::InternalNodeMapping { .. } => {
                "row-id mappings must reference leaf nodes"
            },
            FSERowMappedArchiveSnapshotError::DuplicateLeafMapping { .. } => {
                "leaf nodes must have at most one row-id mapping"
            },
            FSERowMappedArchiveSnapshotError::MissingLeafMapping { .. } => {
                "leaf nodes must have row-id mappings"
            },
            FSERowMappedArchiveSnapshotError::LeafRowIdCountMismatch { .. } => {
                "leaf row-id count must match residual row count"
            },
            FSERowMappedArchiveSnapshotError::DuplicateRowId { .. } => {
                "row ids must be unique across the row mapping"
            },
            FSERowMappedArchiveSnapshotError::ValueOutOfRange { .. } => {
                "row-mapping archive field is outside the runtime range"
            },
        }
    }
}

impl From<FSEArchiveSnapshotError> for FSERowMappedArchiveSnapshotError {
    fn from(error: FSEArchiveSnapshotError) -> (converted: Self) {
        FSERowMappedArchiveSnapshotError::Index(error)
    }
}

impl FromSpecImpl<FSEArchiveSnapshotError> for FSERowMappedArchiveSnapshotError {
    open spec fn obeys_from_spec() -> bool {
        true
    }

    open spec fn from_spec(error: FSEArchiveSnapshotError) -> Self {
        FSERowMappedArchiveSnapshotError::Index(error)
    }
}

/// Serializable row-id mapping for one leaf node.
#[derive(Clone, Debug, PartialEq, Eq)]
pub struct FSELeafRowIdArchiveRecord {
    /// Leaf node id.
    pub node_id: u64,
    /// Row identifiers stored by residual row order.
    pub row_ids: Vec<u64>,
}

/// What the row mapping reads of one index node: its id, whether it is a leaf,
/// and how many residual rows it stores.
#[derive(Clone, Copy, Debug, PartialEq, Eq, Structural)]
pub struct FSEArchiveNodeRowSummary {
    /// Stable node id.
    pub id: u64,
    /// Whether the node is a leaf.
    pub is_leaf: bool,
    /// Number of residual rows stored by the node.
    pub leaf_row_count: u64,
}

/// All row identifiers of the records, in record order.
pub open spec fn mapped_row_ids(records: Seq<FSELeafRowIdArchiveRecord>) -> Seq<u64>
    decreases records.len(),
{
    if records.len() == 0 {
        Seq::empty()
    } else {
        mapped_row_ids(records.drop_last()) + records.last().row_ids@
    }
}

/// Position of the first value of `values`, at or after `position`, that already
/// occurs in `earlier` or before it in `values`.
pub open spec fn first_repeat_from(earlier: Seq<u64>, values: Seq<u64>, position: int) -> Option<int>
    decreases values.len() - position,
{
    if position < 0 || position >= values.len() {
        None
    } else if (earlier + values.subrange(0, position)).contains(values[position]) {
        Some(position)
    } else {
        first_repeat_from(earlier, values, position + 1)
    }
}

/// Why record `index` is rejected, given that every earlier record was accepted.
pub open spec fn leaf_record_error(
    node_count: u64,
    nodes: Seq<FSEArchiveNodeRowSummary>,
    records: Seq<FSELeafRowIdArchiveRecord>,
    index: int,
) -> Option<FSERowMappedArchiveSnapshotError> {
    let record = records[index];
    let node = nodes[record.node_id as int];
    if record.node_id >= node_count {
        Some(FSERowMappedArchiveSnapshotError::UnknownNode { node_id: record.node_id, node_count })
    } else if !node.is_leaf {
        Some(FSERowMappedArchiveSnapshotError::InternalNodeMapping { node_id: record.node_id })
    } else if exists|earlier: int|
        0 <= earlier < index && #[trigger] records[earlier].node_id == record.node_id {
        Some(FSERowMappedArchiveSnapshotError::DuplicateLeafMapping { node_id: record.node_id })
    } else if record.row_ids@.len() != node.leaf_row_count {
        Some(
            FSERowMappedArchiveSnapshotError::LeafRowIdCountMismatch {
                node_id: record.node_id,
                row_id_count: record.row_ids@.len() as u64,
                leaf_row_count: node.leaf_row_count,
            },
        )
    } else {
        match first_repeat_from(mapped_row_ids(records.subrange(0, index)), record.row_ids@, 0) {
            Some(position) => Some(
                FSERowMappedArchiveSnapshotError::DuplicateRowId {
                    row_id: record.row_ids@[position],
                },
            ),
            None => None,
        }
    }
}

/// The error of the first rejected record at or after `index`, if any.
pub open spec fn first_leaf_record_error(
    node_count: u64,
    nodes: Seq<FSEArchiveNodeRowSummary>,
    records: Seq<FSELeafRowIdArchiveRecord>,
    index: int,
) -> Option<FSERowMappedArchiveSnapshotError>
    decreases records.len() - index,
{
    if index < 0 || index >= records.len() {
        None
    } else {
        match leaf_record_error(node_count, nodes, records, index) {
            Some(error) => Some(error),
            None => first_leaf_record_error(node_count, nodes, records, index + 1),
        }
    }
}

/// Some record maps node `node_id`.
pub open spec fn node_is_mapped(records: Seq<FSELeafRowIdArchiveRecord>, node_id: u64) -> bool {
    exists|index: int| 0 <= index < records.len() && #[trigger] records[index].node_id == node_id
}

/// Position of the first leaf node at or after `index` that no record maps.
pub open spec fn first_unmapped_leaf(
    nodes: Seq<FSEArchiveNodeRowSummary>,
    records: Seq<FSELeafRowIdArchiveRecord>,
    index: int,
) -> Option<int>
    decreases nodes.len() - index,
{
    if index < 0 || index >= nodes.len() {
        None
    } else if nodes[index].is_leaf && !node_is_mapped(records, nodes[index].id) {
        Some(index)
    } else {
        first_unmapped_leaf(nodes, records, index + 1)
    }
}

/// Why the leaf row-id records do not fit the index nodes, or `None` when every
/// leaf has exactly one record of the right size and no row id repeats.
pub open spec fn row_mapping_error(
    node_count: u64,
    nodes: Seq<FSEArchiveNodeRowSummary>,
    records: Seq<FSELeafRowIdArchiveRecord>,
) -> Option<FSERowMappedArchiveSnapshotError> {
    match first_leaf_record_error(node_count, nodes, records, 0) {
        Some(error) => Some(error),
        None => match first_unmapped_leaf(nodes, records, 0) {
            Some(position) => Some(
                FSERowMappedArchiveSnapshotError::MissingLeafMapping { node_id: nodes[position].id },
            ),
            None => None,
        },
    }
}

/// Index nodes sit at the positions named by their ids.
pub open spec fn nodes_match_positions(node_count: u64, nodes: Seq<FSEArchiveNodeRowSummary>) -> bool {
    &&& nodes.len() == node_count
    &&& forall|index: int| 0 <= index < nodes.len() ==> #[trigger] nodes[index].id == index
}

proof fn lemma_set_of_push(values: Seq<u64>, value: u64)
    ensures
        values.push(value).to_set() == values.to_set().insert(value),
{
    assert forall|x: u64| values.push(value).to_set().contains(x) <==> values.to_set().insert(
        value,
    ).contains(x) by {
        if values.push(value).contains(x) && x != value {
            let i = choose|i: int| 0 <= i < values.push(value).len() && values.push(value)[i] == x;
            assert(values[i] == x);
        }
        if values.contains(x) {
            let i = choose|i: int| 0 <= i < values.len() && values[i] == x;
            assert(values.push(value)[i] == x);
        }
        if x == value {
            assert(values.push(value)[values.len() as int] == x);
        }
    }
    assert(values.push(value).to_set() =~= values.to_set().insert(value));
}

/// Checks the leaf row-id records of a row-mapped archive against the nodes of
/// its index: every record names a leaf, once, with one row id per residual row,
/// no row id repeats, and every leaf has a record.
pub fn validate_leaf_row_id_records(
    node_count: u64,
    nodes: &[FSEArchiveNodeRowSummary],
    records: &[FSELeafRowIdArchiveRecord],
) -> (result: Result<(), FSERowMappedArchiveSnapshotError>)
    requires
        nodes_match_positions(node_count, nodes@),
    ensures
        match row_mapping_error(node_count, nodes@, records@) {
            Some(error) => result == Err::<(), FSERowMappedArchiveSnapshotError>(error),
            None => result is Ok,
        },
{
    let node_total: usize = nodes.len();
    let mut mapped_leaf_nodes: Vec<bool> = Vec::with_capacity(node_total);
    let mut fill: usize = 0;
    while fill < node_total
        invariant
            fill <= node_total,
            mapped_leaf_nodes@.len() == fill,
            forall|i: int| 0 <= i < fill ==> !#[trigger] mapped_leaf_nodes@[i],
        decreases node_total - fill,
    {
        mapped_leaf_nodes.push(false);
        fill = fill + 1;
    }
    let mut seen: BTreeSet<u64> = BTreeSet::new();
    let mut index: usize = 0;
    proof {
        assert(seen@ =~= mapped_row_ids(records@.subrange(0, 0)).to_set());
    }
    while index < records.len()
        invariant
            nodes_match_positions(node_count, nodes@),
            node_total == node_count,
            index <= records@.len(),
            mapped_leaf_nodes@.len() == node_total,
            forall|i: int|
                0 <= i < node_total ==> (#[trigger] mapped_leaf_nodes@[i] <==> exists|j: int|
                    0 <= j < index && #[trigger] records@[j].node_id == i),
            seen@ == mapped_row_ids(records@.subrange(0, index as int)).to_set(),
            first_leaf_record_error(node_count, nodes@, records@, 0) == first_leaf_record_error(
                node_count,
                nodes@,
                records@,
                index as int,
            ),
        decreases records@.len() - index,
    {
        let record = &records[index];
        let ghost earlier = records@.subrange(0, index as int);
        if record.node_id >= node_count {
            return Err(
                FSERowMappedArchiveSnapshotError::UnknownNode {
                    node_id: record.node_id,
                    node_count,
                },
            );
        }
        let node_index = record.node_id as usize;
        let node = nodes[node_index];
        if !node.is_leaf {
            return Err(
                FSERowMappedArchiveSnapshotError::InternalNodeMapping { node_id: record.node_id },
            );
        }
        if mapped_leaf_nodes[node_index] {
            return Err(
                FSERowMappedArchiveSnapshotError::DuplicateLeafMapping { node_id: record.node_id },
            );
        }
        proof {
            assert(!exists|j: int| 0 <= j < index && #[trigger] records@[j].node_id == record.node_id);
        }
        mapped_leaf_nodes.set(node_index, true);
        let leaf_row_count = node.leaf_row_count;
        let row_id_count = record.row_ids.len() as u64;
        if row_id_count != leaf_row_count {
            return Err(
                FSERowMappedArchiveSnapshotError::LeafRowIdCountMismatch {
                    node_id: record.node_id,
                    row_id_count,
                    leaf_row_count,
                },
            );
        }
        let ghost flat = mapped_row_ids(earlier);
        let mut position: usize = 0;
        while position < record.row_ids.len()
            invariant
                position <= record.row_ids@.len(),
                index < records@.len(),
                record == records@[index as int],
                earlier == records@.subrange(0, index as int),
                flat == mapped_row_ids(earlier),
                record.node_id < node_count,
                nodes@[record.node_id as int].is_leaf,
                !exists|j: int| 0 <= j < index && #[trigger] records@[j].node_id == record.node_id,
                record.row_ids@.len() == nodes@[record.node_id as int].leaf_row_count,
                first_leaf_record_error(node_count, nodes@, records@, 0) == first_leaf_record_error(
                    node_count,
                    nodes@,
                    records@,
                    index as int,
                ),
                seen@ == (flat + record.row_ids@.subrange(0, position as int)).to_set(),
                first_repeat_from(flat, record.row_ids@, 0) == first_repeat_from(
                    flat,
                    record.row_ids@,
                    position as int,
                ),
            decreases record.row_ids@.len() - position,
        {
            let row_id = record.row_ids[position];
            let ghost prefix = flat + record.row_ids@.subrange(0, position as int);
            proof {
                assert(prefix.to_set().contains(row_id) <==> prefix.contains(row_id));
            }
            let inserted = seen.insert(row_id);
            if !inserted {
                proof {
                    assert(first_repeat_from(flat, record.row_ids@, position as int) == Some(
                        position as int,
                    ));
                    assert(leaf_record_error(node_count, nodes@, records@, index as int) == Some(
                        FSERowMappedArchiveSnapshotError::DuplicateRowId { row_id },
                    ));
                }
                return Err(FSERowMappedArchiveSnapshotError::DuplicateRowId { row_id });
            }
            proof {
                let longer = flat + record.row_ids@.subrange(0, position + 1);
                assert(longer =~= prefix.push(row_id));
                lemma_set_of_push(prefix, row_id);
            }
            position = position + 1;
        }
        proof {
            assert(first_repeat_from(flat, record.row_ids@, record.row_ids@.len() as int) is None);
            assert(leaf_record_error(node_count, nodes@, records@, index as int) is None);
            let next = records@.subrange(0, index + 1);
            assert(next.drop_last() =~= earlier);
            assert(record.row_ids@.subrange(0, record.row_ids@.len() as int) =~= record.row_ids@);
            assert(mapped_row_ids(next) == flat + record.row_ids@);
            assert forall|i: int| 0 <= i < node_total implies (#[trigger] mapped_leaf_nodes@[i]
                <==> exists|j: int| 0 <= j < index + 1 && #[trigger] records@[j].node_id == i) by {
                if i == node_index {
                    assert(records@[index as int].node_id == i);
                } else if exists|j: int| 0 <= j < index + 1 && #[trigger] records@[j].node_id == i {
                    let j = choose|j: int| 0 <= j < index + 1 && #[trigger] records@[j].node_id == i;
                    assert(j < index);
                }
            }
        }
        index = index + 1;
    }
    proof {
        assert(records@.subrange(0, records@.len() as int) =~= records@);
    }
    let mut node_position: usize = 0;
    while node_position < nodes.len()
        invariant
            nodes_match_positions(node_count, nodes@),
            node_total == node_count,
            index == records@.len(),
            node_position <= nodes@.len(),
            mapped_leaf_nodes@.len() == node_total,
            forall|i: int|
                0 <= i < node_total ==> (#[trigger] mapped_leaf_nodes@[i] <==> exists|j: int|
                    0 <= j < index && #[trigger] records@[j].node_id == i),
            first_leaf_record_error(node_count, nodes@, records@, 0) is None,
            first_unmapped_leaf(nodes@, records@, 0) == first_unmapped_leaf(
                nodes@,
                records@,
                node_position as int,
            ),
        decreases nodes@.len() - node_position,
    {
        let node = nodes[node_position];
        if node.is_leaf && !mapped_leaf_nodes[node.id as usize] {
            proof {
                assert(!node_is_mapped(records@, node.id));
            }
            return Err(FSERowMappedArchiveSnapshotError::MissingLeafMapping { node_id: node.id });
        }
        proof {
            if node.is_leaf {
                let j = choose|j: int| 0 <= j < index && #[trigger] records@[j].node_id == node.id;
                assert(node_is_mapped(records@, node.id));
            }
        }
        node_position = node_position + 1;
    }
    Ok(())
}

/// The leaf row-id records fit the index nodes: every record names a leaf that
/// exists and holds one row id per residual row of that leaf, no two records
/// name the same node, every leaf is named, and no row id occurs twice across
/// the records.
pub open spec fn row_mapping_valid(
    node_count: u64,
    nodes: Seq<FSEArchiveNodeRowSummary>,
    records: Seq<FSELeafRowIdArchiveRecord>,
) -> bool {
    &&& forall|r: int|
        0 <= r < records.len() ==> {
            &&& (#[trigger] records[r]).node_id < node_count
            &&& nodes[records[r].node_id as int].is_leaf
            &&& records[r].row_ids@.len() == nodes[records[r].node_id as int].leaf_row_count
        }
    &&& forall|r: int, q: int|
        0 <= r < q < records.len() ==> #[trigger] records[r].node_id != #[trigger] records[q].node_id
    &&& forall|i: int|
        0 <= i < nodes.len() && (#[trigger] nodes[i]).is_leaf ==> node_is_mapped(records, nodes[i].id)
    &&& mapped_row_ids(records).no_duplicates()
}

proof fn lemma_first_leaf_record_error_none(
    node_count: u64,
    nodes: Seq<FSEArchiveNodeRowSummary>,
    records: Seq<FSELeafRowIdArchiveRecord>,
    index: int,
)
    requires
        0 <= index <= records.len(),
    ensures
        first_leaf_record_error(node_count, nodes, records, index) is None <==> forall|j: int|
            index <= j < records.len() ==> #[trigger] leaf_record_error(node_count, nodes, records, j)
                is None,
    decreases records.len() - index,
{
    if index < records.len() {
        lemma_first_leaf_record_error_none(node_count, nodes, records, index + 1);
    }
}

proof fn lemma_first_unmapped_leaf_none(
    nodes: Seq<FSEArchiveNodeRowSummary>,
    records: Seq<FSELeafRowIdArchiveRecord>,
    index: int,
)
    requires
        0 <= index <= nodes.len(),
    ensures
        first_unmapped_leaf(nodes, records, index) is None <==> forall|j: int|
            index <= j < nodes.len() && (#[trigger] nodes[j]).is_leaf ==> node_is_mapped(
                records,
                nodes[j].id,
            ),
    decreases nodes.len() - index,
{
    if index < nodes.len() {
        lemma_first_unmapped_leaf_none(nodes, records, index + 1);
    }
}

proof fn lemma_first_repeat_none(earlier: Seq<u64>, values: Seq<u64>, position: int)
    requires
        0 <= position <= values.len(),
    ensures
        first_repeat_from(earlier, values, position) is None <==> forall|q: int|
            position <= q < values.len() ==> !(earlier + values.subrange(0, q)).contains(
                #[trigger] values[q],
            ),
    decreases values.len() - position,
{
    if position < values.len() {
        lemma_first_repeat_none(earlier, values, position + 1);
    }
}

proof fn lemma_push_no_duplicates(values: Seq<u64>, value: u64)
    ensures
        values.push(value).no_duplicates() <==> values.no_duplicates() && !values.contains(value),
{
    let pushed = values.push(value);
    if pushed.no_duplicates() {
        assert forall|i: int, j: int| 0 <= i < values.len() && 0 <= j < values.len() && i != j implies values[i]
            != values[j] by {
            assert(pushed[i] == values[i]);
            assert(pushed[j] == values[j]);
        }
        if values.contains(value) {
            let i = choose|i: int| 0 <= i < values.len() && values[i] == value;
            assert(pushed[i] == pushed[values.len() as int]);
        }
    }
    if values.no_duplicates() && !values.contains(value) {
        assert forall|i: int, j: int| 0 <= i < pushed.len() && 0 <= j < pushed.len() && i != j implies pushed[i]
            != pushed[j] by {
            if i < values.len() && j < values.len() {
                assert(pushed[i] == values[i] && pushed[j] == values[j]);
            } else if i < values.len() {
                assert(pushed[i] == values[i]);
            } else if j < values.len() {
                assert(pushed[j] == values[j]);
            }
        }
    }
}

proof fn lemma_concat_no_duplicates(earlier: Seq<u64>, values: Seq<u64>, count: int)
    requires
        0 <= count <= values.len(),
    ensures
        (earlier + values.subrange(0, count)).no_duplicates() <==> earlier.no_duplicates() && forall|
            q: int,
        |
            0 <= q < count ==> !(earlier + values.subrange(0, q)).contains(#[trigger] values[q]),
    decreases count,
{
    if count == 0 {
        assert(earlier + values.subrange(0, 0) =~= earlier);
    } else {
        lemma_concat_no_duplicates(earlier, values, count - 1);
        assert(earlier + values.subrange(0, count) =~= (earlier + values.subrange(0, count - 1)).push(
            values[count - 1],
        ));
        lemma_push_no_duplicates(earlier + values.subrange(0, count - 1), values[count - 1]);
    }
}

proof fn lemma_mapped_prefix(records: Seq<FSELeafRowIdArchiveRecord>, count: int)
    requires
        0 <= count < records.len(),
    ensures
        mapped_row_ids(records.subrange(0, count + 1)) == mapped_row_ids(records.subrange(0, count))
            + records[count].row_ids@,
{
    assert(records.subrange(0, count + 1).drop_last() =~= records.subrange(0, count));
}

proof fn lemma_mapped_no_duplicates(records: Seq<FSELeafRowIdArchiveRecord>, count: int)
    requires
        0 <= count <= records.len(),
    ensures
        mapped_row_ids(records.subrange(0, count)).no_duplicates() <==> forall|j: int|
            0 <= j < count ==> #[trigger] first_repeat_from(
                mapped_row_ids(records.subrange(0, j)),
                records[j].row_ids@,
                0,
            ) is None,
    decreases count,
{
    if count == 0 {
        assert(mapped_row_ids(records.subrange(0, 0)) =~= Seq::<u64>::empty());
    } else {
        let j = count - 1;
        lemma_mapped_no_duplicates(records, j);
        lemma_mapped_prefix(records, j);
        let earlier = mapped_row_ids(records.subrange(0, j));
        let values = records[j].row_ids@;
        assert(values.subrange(0, values.len() as int) =~= values);
        lemma_concat_no_duplicates(earlier, values, values.len() as int);
        lemma_first_repeat_none(earlier, values, 0);
    }
}

/// The leaf row-id check accepts the records exactly when they fit the nodes:
/// `row_mapping_error` finds no error if and only if every record names an
/// existing leaf with one row id per residual row, no two records name the
/// same node, every leaf is named, and all row ids are distinct.
pub proof fn lemma_row_mapping_error_iff_valid(
    node_count: u64,
    nodes: Seq<FSEArchiveNodeRowSummary>,
    records: Seq<FSELeafRowIdArchiveRecord>,
)
    ensures
        row_mapping_error(node_count, nodes, records) is None <==> row_mapping_valid(
            node_count,
            nodes,
            records,
        ),
{
    lemma_first_leaf_record_error_none(node_count, nodes, records, 0);
    lemma_first_unmapped_leaf_none(nodes, records, 0);
    lemma_mapped_no_duplicates(records, records.len() as int);
    assert(records.subrange(0, records.len() as int) =~= records);
    if row_mapping_error(node_count, nodes, records) is None {
        assert forall|r: int, q: int|
            0 <= r < q < records.len() implies #[trigger] records[r].node_id != #[trigger] records[q].node_id by {
            assert(leaf_record_error(node_count, nodes, records, q) is None);
        }
        assert forall|j: int| 0 <= j < records.len() implies #[trigger] first_repeat_from(
            mapped_row_ids(records.subrange(0, j)),
            records[j].row_ids@,
            0,
        ) is None by {
            assert(leaf_record_error(node_count, nodes, records, j) is None);
        }
        assert forall|r: int| 0 <= r < records.len() implies {
            &&& (#[trigger] records[r]).node_id < node_count
            &&& nodes[records[r].node_id as int].is_leaf
            &&& records[r].row_ids@.len() == nodes[records[r].node_id as int].leaf_row_count
        } by {
            assert(leaf_record_error(node_count, nodes, records, r) is None);
        }
    }
    if row_mapping_valid(node_count, nodes, records) {
        assert forall|j: int| 0 <= j < records.len() implies #[trigger] leaf_record_error(
            node_count,
            nodes,
            records,
            j,
        ) is None by {
            assert(first_repeat_from(mapped_row_ids(records.subrange(0, j)), records[j].row_ids@, 0)
                is None);
            assert(records[j].node_id < node_count);
            if exists|earlier: int| 0 <= earlier < j && #[trigger] records[earlier].node_id == records[j].node_id {
                let earlier = choose|earlier: int|
                    0 <= earlier < j && #[trigger] records[earlier].node_id == records[j].node_id;
                assert(records[earlier].node_id != records[j].node_id);
            }
        }
    }
}

} // verus!
