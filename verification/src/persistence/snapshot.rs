//! Validation vocabulary for numeric index archive snapshots.
use vstd::prelude::*;
use vstd::std_specs::convert::FromSpecImpl;

use crate::math::{bounding_box_error_message, BoundingBoxError};

use super::manifest::{manifest_error_message, FSEArchiveManifestError};

verus! {

/// Error returned when archive snapshot validation or reconstruction fails.
#[derive(Clone, Debug, PartialEq, Eq)]
pub enum FSEArchiveSnapshotError {
    /// The archive manifest is invalid.
    Manifest(FSEArchiveManifestError),
    /// The archive node count does not match the manifest.
    NodeCountMismatch {
        /// Node count recorded by the manifest.
        manifest_node_count: u64,
        /// Number of node records in the snapshot.
        actual_node_count: u64,
    },
    /// The root node record count does not match the manifest.
    RootRecordCountMismatch {
        /// Root node id recorded by the manifest.
        root_node_id: u64,
        /// Record count recorded by the root node.
        root_cardinality: u64,
        /// Record count recorded by the manifest.
        manifest_record_count: u64,
    },
    /// A node id does not match its archive position.
    NodeIdMismatch {
        /// Position of the node record in the archive node list.
        position: usize,
        /// Node id found in the archive record.
        node_id: u64,
    },
    /// A node component used the wrong dimensionality.
    DimensionMismatch {
        /// Node containing the invalid component.
        node_id: u64,
        /// Component with the mismatched dimensionality.
        field: &'static str,
        /// Dimensionality found in the archive record.
        actual_dimensions: usize,
        /// Dimensionality required by the manifest.
        expected_dimensions: usize,
    },
    /// A node centroid contains a non-finite coordinate.
    NonFiniteCentroid {
        /// Node containing the non-finite coordinate.
        node_id: u64,
        /// Dimension containing the non-finite coordinate.
        dimension: usize,
    },
    /// A node bounding box is invalid.
    Bounds {
        /// Node containing the invalid bounding box.
        node_id: u64,
        /// Bounding box validation error.
        source: BoundingBoxError,
    },
    /// A leaf node has child references.
    LeafHasChildren {
        /// Leaf node containing child references.
        node_id: u64,
    },
    /// A leaf node stores a different number of residual rows than records.
    LeafCardinalityMismatch {
        /// Leaf node containing the mismatch.
        node_id: u64,
        /// Number of residual rows stored by the node.
        stored_rows: u64,
        /// Number of records declared by the node.
        cardinality: u64,
    },
    /// A node stores more residual rows than its declared record count.
    StoredRowsExceedCardinality {
        /// Node containing the mismatch.
        node_id: u64,
        /// Number of residual rows stored by the node.
        stored_rows: u64,
        /// Number of records declared by the node.
        cardinality: u64,
    },
    /// A child id does not reference a node record in the archive.
    ChildReferenceOutOfRange {
        /// Node containing the child reference.
        node_id: u64,
        /// Child id found in the archive record.
        child_id: u64,
        /// Number of node records in the snapshot.
        node_count: u64,
    },
    /// A numeric archive field cannot be represented by the runtime type.
    ValueOutOfRange {
        /// Field being converted.
        field: &'static str,
        /// Value found in the archive record.
        value: u64,
    },
}

/// Diagnostic text of an archive snapshot error.
pub open spec fn archive_snapshot_error_message(error: FSEArchiveSnapshotError) -> &'static str {
    match error {
        FSEArchiveSnapshotError::Manifest(error) => manifest_error_message(error),
        FSEArchiveSnapshotError::NodeCountMismatch { .. } => {
            "archive node records must match manifest node count"
        },
        FSEArchiveSnapshotError::RootRecordCountMismatch { .. } => {
            "archive root cardinality must match manifest record count"
        },
        FSEArchiveSnapshotError::NodeIdMismatch { .. } => {
            "archive node ids must match node list positions"
        },
        FSEArchiveSnapshotError::DimensionMismatch { .. } => {
            "archive node component dimensionality is invalid"
        },
        FSEArchiveSnapshotError::NonFiniteCentroid { .. } => {
            "archive node centroid values must be finite"
        },
        FSEArchiveSnapshotError::Bounds { source, .. } => bounding_box_error_message(source),
        FSEArchiveSnapshotError::LeafHasChildren { .. } => {
            "archive leaf nodes must not contain child references"
        },
        FSEArchiveSnapshotError::LeafCardinalityMismatch { .. } => {
            "archive leaf cardinality must match stored residual rows"
        },
        FSEArchiveSnapshotError::StoredRowsExceedCardinality { .. } => {
            "archive residual row count must not exceed node cardinality"
        },
        FSEArchiveSnapshotError::ChildReferenceOutOfRange { .. } => {
            "archive child references must point to existing nodes"
        },
        FSEArchiveSnapshotError::ValueOutOfRange { .. } => {
            "archive numeric field is outside the runtime range"
        },
    }
}

impl FSEArchiveSnapshotError {
    /// Returns the diagnostic message for the error.
    pub fn message(&self) -> (message: &'static str)
        ensures
            message == archive_snapshot_error_message(*self),
    {
        match self {
            FSEArchiveSnapshotError::Manifest(error) => error.message(),
            FSEArchiveSnapshotError::NodeCountMismatch { .. } => {
                "archive node records must match manifest node count"
            },
            FSEArchiveSnapshotError::RootRecordCountMismatch { .. } => {
                "archive root cardinality must match manifest record count"
            },
            FSEArchiveSnapshotError::NodeIdMismatch { .. } => {
                "archive node ids must match node list positions"
            },
            FSEArchiveSnapshotError::DimensionMismatch { .. } => {
                "archive node component dimensionality is invalid"
            },
            FSEArchiveSnapshotError::NonFiniteCentroid { .. } => {
                "archive node centroid values must be finite"
            },
            FSEArchiveSnapshotError::Bounds { source, .. } => source.message(),
            FSEArchiveSnapshotError::LeafHasChildren { .. } => {
                "archive leaf nodes must not contain child references"
            },
            FSEArchiveSnapshotError::LeafCardinalityMismatch { .. } => {
                "archive leaf cardinality must match stored residual rows"
            },
            FSEArchiveSnapshotError::StoredRowsExceedCardinality { .. } => {
                "archive residual row count must not exceed node cardinality"
            },
            FSEArchiveSnapshotError::ChildReferenceOutOfRange { .. } => {
                "archive child references must point to existing nodes"
            },
            FSEArchiveSnapshotError::ValueOutOfRange { .. } => {
                "archive numeric field is outside the runtime range"
            },
        }
    }
}

impl From<FSEArchiveManifestError> for FSEArchiveSnapshotError {
    fn from(error: FSEArchiveManifestError) -> (converted: Self) {
        FSEArchiveSnapshotError::Manifest(error)
    }
}

impl FromSpecImpl<FSEArchiveManifestError> for FSEArchiveSnapshotError {
    open spec fn obeys_from_spec() -> bool {
        true
    }

    open spec fn from_spec(error: FSEArchiveManifestError) -> Self {
        FSEArchiveSnapshotError::Manifest(error)
    }
}

/// The integer shape of a partition node archive record: its id, the number of
/// values in each of its vector components, its cardinality, its children and
/// whether it is a leaf. The values of the vectors are checked elsewhere.
#[derive(Clone, Debug, PartialEq, Eq)]
pub struct FSEPartitionNodeShape {
    /// Node id stored in the record.
    pub id: u64,
    /// Number of centroid values.
    pub centroid_dimensions: usize,
    /// Number of lower bound values.
    pub bounds_min_dimensions: usize,
    /// Number of upper bound values.
    pub bounds_max_dimensions: usize,
    /// Number of residual dimensions.
    pub residual_dimensions: usize,
    /// Number of records the node covers.
    pub cardinality: u64,
    /// Ids of the child nodes.
    pub children: Vec<u64>,
    /// Whether the node is a leaf.
    pub is_leaf: bool,
}

/// The dimension error of component `field` of node `node_id`, if it holds a
/// number of values other than the expected one.
pub open spec fn dimension_error(
    node_id: u64,
    field: &'static str,
    actual_dimensions: usize,
    expected_dimensions: usize,
) -> Option<FSEArchiveSnapshotError> {
    if actual_dimensions != expected_dimensions {
        Some(
            FSEArchiveSnapshotError::DimensionMismatch {
                node_id,
                field,
                actual_dimensions,
                expected_dimensions,
            },
        )
    } else {
        None
    }
}

/// The first rule that a node's id and component sizes break, in the order the
/// record is checked: the id must equal the position, then the centroid, lower
/// bounds, upper bounds and residuals must each have `expected_dimensions` entries.
pub open spec fn node_layout_error(
    shape: FSEPartitionNodeShape,
    position: usize,
    expected_dimensions: usize,
) -> Option<FSEArchiveSnapshotError> {
    if shape.id != position as u64 {
        Some(FSEArchiveSnapshotError::NodeIdMismatch { position, node_id: shape.id })
    } else if dimension_error(shape.id, "centroid", shape.centroid_dimensions, expected_dimensions)
        is Some {
        dimension_error(shape.id, "centroid", shape.centroid_dimensions, expected_dimensions)
    } else if dimension_error(shape.id, "bounds_min", shape.bounds_min_dimensions, expected_dimensions)
        is Some {
        dimension_error(shape.id, "bounds_min", shape.bounds_min_dimensions, expected_dimensions)
    } else if dimension_error(shape.id, "bounds_max", shape.bounds_max_dimensions, expected_dimensions)
        is Some {
        dimension_error(shape.id, "bounds_max", shape.bounds_max_dimensions, expected_dimensions)
    } else {
        dimension_error(
            shape.id,
            "residual_dimensions",
            shape.residual_dimensions,
            expected_dimensions,
        )
    }
}

/// Position of the first child id at or after `index` that is not below `node_count`.
pub open spec fn first_child_out_of_range(children: Seq<u64>, node_count: u64, index: int) -> Option<int>
    decreases children.len() - index,
{
    if index < 0 || index >= children.len() {
        None
    } else if children[index] >= node_count {
        Some(index)
    } else {
        first_child_out_of_range(children, node_count, index + 1)
    }
}

/// The first rule that a node's rows and children break, given the number of
/// rows its residual block stores: a leaf has no children and stores exactly
/// its cardinality, no node stores more rows than its cardinality, and every
/// child id is below the node count.
pub open spec fn node_rows_error(
    shape: FSEPartitionNodeShape,
    stored_rows: u64,
    node_count: u64,
) -> Option<FSEArchiveSnapshotError> {
    if shape.is_leaf && shape.children@.len() > 0 {
        Some(FSEArchiveSnapshotError::LeafHasChildren { node_id: shape.id })
    } else if shape.is_leaf && stored_rows != shape.cardinality {
        Some(
            FSEArchiveSnapshotError::LeafCardinalityMismatch {
                node_id: shape.id,
                stored_rows,
                cardinality: shape.cardinality,
            },
        )
    } else if stored_rows > shape.cardinality {
        Some(
            FSEArchiveSnapshotError::StoredRowsExceedCardinality {
                node_id: shape.id,
                stored_rows,
                cardinality: shape.cardinality,
            },
        )
    } else {
        match first_child_out_of_range(shape.children@, node_count, 0) {
            Some(index) => Some(
                FSEArchiveSnapshotError::ChildReferenceOutOfRange {
                    node_id: shape.id,
                    child_id: shape.children@[index],
                    node_count,
                },
            ),
            None => None,
        }
    }
}

/// Checks that a node component holds `expected_dimensions` values.
pub fn validate_dimensions(
    node_id: u64,
    field: &'static str,
    actual_dimensions: usize,
    expected_dimensions: usize,
) -> (result: Result<(), FSEArchiveSnapshotError>)
    ensures
        match dimension_error(node_id, field, actual_dimensions, expected_dimensions) {
            Some(error) => result == Err::<(), FSEArchiveSnapshotError>(error),
            None => result is Ok,
        },
{
    if actual_dimensions != expected_dimensions {
        return Err(
            FSEArchiveSnapshotError::DimensionMismatch {
                node_id,
                field,
                actual_dimensions,
                expected_dimensions,
            },
        );
    }
    Ok(())
}

/// Checks the id and component sizes of the node record at `position`.
pub fn validate_partition_node_layout(
    shape: &FSEPartitionNodeShape,
    position: usize,
    expected_dimensions: usize,
) -> (result: Result<(), FSEArchiveSnapshotError>)
    ensures
        match node_layout_error(*shape, position, expected_dimensions) {
            Some(error) => result == Err::<(), FSEArchiveSnapshotError>(error),
            None => result is Ok,
        },
{
    if shape.id != position as u64 {
        return Err(FSEArchiveSnapshotError::NodeIdMismatch { position, node_id: shape.id });
    }
    match validate_dimensions(shape.id, "centroid", shape.centroid_dimensions, expected_dimensions) {
        Ok(()) => {},
        Err(error) => return Err(error),
    }
    match validate_dimensions(shape.id, "bounds_min", shape.bounds_min_dimensions, expected_dimensions) {
        Ok(()) => {},
        Err(error) => return Err(error),
    }
    match validate_dimensions(shape.id, "bounds_max", shape.bounds_max_dimensions, expected_dimensions) {
        Ok(()) => {},
        Err(error) => return Err(error),
    }
    validate_dimensions(shape.id, "residual_dimensions", shape.residual_dimensions, expected_dimensions)
}

/// Every residual dimension of a block holds as many rows as the first.
pub open spec fn residual_shape_consistent(dimension_lengths: Seq<usize>) -> bool {
    forall|i: int| 0 <= i < dimension_lengths.len() ==> #[trigger] dimension_lengths[i]
        == dimension_lengths[0]
}

/// The rows a residual block stores: those of its first dimension, or none
/// when it has no dimension.
pub open spec fn residual_rows(dimension_lengths: Seq<usize>) -> u64 {
    if dimension_lengths.len() == 0 {
        0
    } else {
        dimension_lengths[0] as u64
    }
}

/// Checks the shape of a residual block given the row count of each of its
/// dimensions: `None` when two dimensions hold different numbers of rows,
/// otherwise the rows the block stores.
pub fn residual_stored_rows(dimension_lengths: &[usize]) -> (rows: Option<u64>)
    ensures
        residual_shape_consistent(dimension_lengths@) ==> rows == Some(
            residual_rows(dimension_lengths@),
        ),
        !residual_shape_consistent(dimension_lengths@) ==> rows is None,
{
    if dimension_lengths.len() == 0 {
        return Some(0);
    }
    let expected_rows = dimension_lengths[0];
    let mut index: usize = 1;
    while index < dimension_lengths.len()
        invariant
            1 <= index <= dimension_lengths@.len(),
            expected_rows == dimension_lengths@[0],
            forall|i: int| 0 <= i < index ==> #[trigger] dimension_lengths@[i] == expected_rows,
        decreases dimension_lengths@.len() - index,
    {
        if dimension_lengths[index] != expected_rows {
            return None;
        }
        index = index + 1;
    }
    Some(expected_rows as u64)
}

/// Checks the rows and children of a node record, given the number of rows its
/// residual block stores.
pub fn validate_partition_node_rows(
    shape: &FSEPartitionNodeShape,
    stored_rows: u64,
    node_count: u64,
) -> (result: Result<(), FSEArchiveSnapshotError>)
    ensures
        match node_rows_error(*shape, stored_rows, node_count) {
            Some(error) => result == Err::<(), FSEArchiveSnapshotError>(error),
            None => result is Ok,
        },
{
    if shape.is_leaf && shape.children.len() > 0 {
        return Err(FSEArchiveSnapshotError::LeafHasChildren { node_id: shape.id });
    }
    if shape.is_leaf && stored_rows != shape.cardinality {
        return Err(
            FSEArchiveSnapshotError::LeafCardinalityMismatch {
                node_id: shape.id,
                stored_rows,
                cardinality: shape.cardinality,
            },
        );
    }
    if stored_rows > shape.cardinality {
        return Err(
            FSEArchiveSnapshotError::StoredRowsExceedCardinality {
                node_id: shape.id,
                stored_rows,
                cardinality: shape.cardinality,
            },
        );
    }
    let mut index: usize = 0;
    while index < shape.children.len()
        invariant
            index <= shape.children@.len(),
            !(shape.is_leaf && shape.children@.len() > 0),
            !(shape.is_leaf && stored_rows != shape.cardinality),
            stored_rows <= shape.cardinality,
            first_child_out_of_range(shape.children@, node_count, 0) == first_child_out_of_range(
                shape.children@,
                node_count,
                index as int,
            ),
        decreases shape.children@.len() - index,
    {
        let child_id = shape.children[index];
        if child_id >= node_count {
            return Err(
                FSEArchiveSnapshotError::ChildReferenceOutOfRange {
                    node_id: shape.id,
                    child_id,
                    node_count,
                },
            );
        }
        index = index + 1;
    }
    Ok(())
}

/// A node that passes the row rules covers at least the rows it stores, a leaf
/// exactly those rows, and every child it names is a node of the archive.
pub proof fn lemma_node_rows_rules(shape: FSEPartitionNodeShape, stored_rows: u64, node_count: u64)
    requires
        node_rows_error(shape, stored_rows, node_count) is None,
    ensures
        stored_rows <= shape.cardinality,
        shape.is_leaf ==> stored_rows == shape.cardinality && shape.children@.len() == 0,
        forall|i: int| 0 <= i < shape.children@.len() ==> #[trigger] shape.children@[i] < node_count,
{
    assert forall|i: int| 0 <= i < shape.children@.len() implies #[trigger] shape.children@[i]
        < node_count by {
        lemma_no_child_out_of_range(shape.children@, node_count, 0, i);
    }
}

proof fn lemma_no_child_out_of_range(children: Seq<u64>, node_count: u64, index: int, i: int)
    requires
        0 <= index <= i < children.len(),
        first_child_out_of_range(children, node_count, index) is None,
    ensures
        children[i] < node_count,
    decreases i - index,
{
    if index < i {
        lemma_no_child_out_of_range(children, node_count, index + 1, i);
    }
}

} // verus!
