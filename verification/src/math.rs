//! Validation vocabulary for the geometric primitives stored in index archives.
use vstd::prelude::*;

verus! {

/// Error returned when checked bounding box construction fails.
#[derive(Clone, Debug, PartialEq, Eq, Structural)]
pub enum BoundingBoxError {
    /// Minimum and maximum coordinate vectors do not have the same length.
    DimensionMismatch {
        /// Number of minimum-bound dimensions.
        min_dimensions: usize,
        /// Number of maximum-bound dimensions.
        max_dimensions: usize,
    },
    /// No dimensions were provided.
    Empty,
    /// At least one bound value is not finite.
    NonFinite {
        /// Dimension containing the non-finite value.
        dimension: usize,
    },
    /// A minimum bound is greater than its maximum bound.
    InvertedRange {
        /// Dimension containing the inverted range.
        dimension: usize,
    },
}

/// Diagnostic text of a bounding box error; for an inverted range the dimension
/// follows the text.
pub open spec fn bounding_box_error_message(error: BoundingBoxError) -> &'static str {
    match error {
        BoundingBoxError::DimensionMismatch { .. } => {
            "bounding box min and max vectors must have the same dimensionality"
        },
        BoundingBoxError::Empty => "bounding box must have at least one dimension",
        BoundingBoxError::NonFinite { .. } => "bounding box bounds must be finite in every dimension",
        BoundingBoxError::InvertedRange { .. } => {
            "bounding box minimum must not exceed maximum in dimension"
        },
    }
}

impl BoundingBoxError {
    /// Returns the diagnostic message for the error.
    pub fn message(&self) -> (message: &'static str)
        ensures
            message == bounding_box_error_message(*self),
    {
        match self {
            BoundingBoxError::DimensionMismatch { .. } => {
                "bounding box min and max vectors must have the same dimensionality"
            },
            BoundingBoxError::Empty => "bounding box must have at least one dimension",
            BoundingBoxError::NonFinite { .. } => {
                "bounding box bounds must be finite in every dimension"
            },
            BoundingBoxError::InvertedRange { .. } => {
                "bounding box minimum must not exceed maximum in dimension"
            },
        }
    }
}

} // verus!
