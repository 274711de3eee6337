//! Numeric field encoders.
use vstd::prelude::*;

use crate::data::FSEFieldType;

verus! {

/// Encoder for signed integer fields.
#[derive(Clone, Copy, Debug, PartialEq, Eq, Structural)]
pub struct IntegerEncoder;

/// Encoder for floating point fields.
#[derive(Clone, Copy, Debug, PartialEq, Eq, Structural)]
pub struct FloatEncoder;

/// Encoder for timestamp fields represented as milliseconds since the Unix epoch.
#[derive(Clone, Copy, Debug, PartialEq, Eq, Structural)]
pub struct TimestampMillisEncoder;

/// Encoder for boolean fields.
#[derive(Clone, Copy, Debug, PartialEq, Eq, Structural)]
pub struct BooleanEncoder;

impl IntegerEncoder {
    /// Returns the input field type accepted by this encoder.
    pub fn field_type(&self) -> (field_type: FSEFieldType)
        ensures
            field_type == FSEFieldType::Integer,
    {
        FSEFieldType::Integer
    }

    /// Returns the number of coordinate dimensions produced by this encoder.
    pub fn output_dimensions(&self) -> (dimensions: usize)
        ensures
            dimensions == 1,
    {
        1
    }
}

impl FloatEncoder {
    /// Returns the input field type accepted by this encoder.
    pub fn field_type(&self) -> (field_type: FSEFieldType)
        ensures
            field_type == FSEFieldType::Float,
    {
        FSEFieldType::Float
    }

    /// Returns the number of coordinate dimensions produced by this encoder.
    pub fn output_dimensions(&self) -> (dimensions: usize)
        ensures
            dimensions == 1,
    {
        1
    }
}

impl TimestampMillisEncoder {
    /// Returns the input field type accepted by this encoder.
    pub fn field_type(&self) -> (field_type: FSEFieldType)
        ensures
            field_type == FSEFieldType::TimestampMillis,
    {
        FSEFieldType::TimestampMillis
    }

    /// Returns the number of coordinate dimensions produced by this encoder.
    pub fn output_dimensions(&self) -> (dimensions: usize)
        ensures
            dimensions == 1,
    {
        1
    }
}

impl BooleanEncoder {
    /// Returns the input field type accepted by this encoder.
    pub fn field_type(&self) -> (field_type: FSEFieldType)
        ensures
            field_type == FSEFieldType::Boolean,
    {
        FSEFieldType::Boolean
    }

    /// Returns the number of coordinate dimensions produced by this encoder.
    pub fn output_dimensions(&self) -> (dimensions: usize)
        ensures
            dimensions == 1,
    {
        1
    }
}

} // verus!
