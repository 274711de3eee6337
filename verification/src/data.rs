//! Typed data identifiers shared by the encoding and persistence layers.
use vstd::prelude::*;

verus! {

/// Stable identifier of one typed record.
#[derive(Clone, Copy, Debug, PartialEq, Eq, PartialOrd, Ord, Hash, Structural)]
pub struct RowId(pub u64);

impl RowId {
    /// Creates a row identifier from its numeric value.
    pub fn new(value: u64) -> (row_id: Self)
        ensures
            row_id.0 == value,
    {
        RowId(value)
    }

    /// Returns the numeric value of the row identifier.
    pub fn value(self) -> (value: u64)
        ensures
            value == self.0,
    {
        self.0
    }
}

/// Logical type of a typed field.
#[derive(Clone, Copy, Debug, PartialEq, Eq, Structural)]
pub enum FSEFieldType {
    /// Signed 64-bit integer field.
    Integer,
    /// 64-bit floating point field.
    Float,
    /// UTF-8 string field.
    Text,
    /// Boolean field.
    Boolean,
    /// Timestamp field represented as milliseconds since the Unix epoch.
    TimestampMillis,
    /// Categorical field represented by stable labels.
    Category,
}

/// Field metadata of a typed schema.
#[derive(Clone, Debug, PartialEq, Eq)]
pub struct FSEField {
    /// Stable field name.
    pub name: String,
    /// Logical field type.
    pub field_type: FSEFieldType,
    /// Whether the field accepts null values.
    pub nullable: bool,
}

impl FSEField {
    /// Creates field metadata.
    pub fn new(name: String, field_type: FSEFieldType, nullable: bool) -> (field: Self)
        ensures
            field.name == name,
            field.field_type == field_type,
            field.nullable == nullable,
    {
        FSEField { name, field_type, nullable }
    }
}

} // verus!
