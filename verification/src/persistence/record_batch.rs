//! Archive records for typed FSE record batches.
use vstd::prelude::*;

use crate::data::{FSEField, FSEFieldType};

verus! {

/// Serializable field type tag.
#[derive(Clone, Copy, Debug, PartialEq, Eq, Structural)]
pub enum FSEFieldTypeArchiveTag {
    /// Signed 64-bit integer field.
    Integer,
    /// 64-bit floating point field.
    Float,
    /// UTF-8 string field.
    Text,
    /// Boolean field.
    Boolean,
    /// Timestamp field represented as milliseconds since the Unix epoch.
    TimestampMillis,
    /// Categorical field represented by stable labels.
    Category,
}

/// Archive tag of a runtime field type.
pub open spec fn archive_tag_of(field_type: FSEFieldType) -> FSEFieldTypeArchiveTag {
    match field_type {
        FSEFieldType::Integer => FSEFieldTypeArchiveTag::Integer,
        FSEFieldType::Float => FSEFieldTypeArchiveTag::Float,
        FSEFieldType::Text => FSEFieldTypeArchiveTag::Text,
        FSEFieldType::Boolean => FSEFieldTypeArchiveTag::Boolean,
        FSEFieldType::TimestampMillis => FSEFieldTypeArchiveTag::TimestampMillis,
        FSEFieldType::Category => FSEFieldTypeArchiveTag::Category,
    }
}

/// Runtime field type of an archive tag.
pub open spec fn field_type_of(tag: FSEFieldTypeArchiveTag) -> FSEFieldType {
    match tag {
        FSEFieldTypeArchiveTag::Integer => FSEFieldType::Integer,
        FSEFieldTypeArchiveTag::Float => FSEFieldType::Float,
        FSEFieldTypeArchiveTag::Text => FSEFieldType::Text,
        FSEFieldTypeArchiveTag::Boolean => FSEFieldType::Boolean,
        FSEFieldTypeArchiveTag::TimestampMillis => FSEFieldType::TimestampMillis,
        FSEFieldTypeArchiveTag::Category => FSEFieldType::Category,
    }
}

impl FSEFieldTypeArchiveTag {
    /// Returns the archive tag of a runtime field type.
    pub fn from_field_type(field_type: FSEFieldType) -> (tag: Self)
        ensures
            tag == archive_tag_of(field_type),
    {
        match field_type {
            FSEFieldType::Integer => FSEFieldTypeArchiveTag::Integer,
            FSEFieldType::Float => FSEFieldTypeArchiveTag::Float,
            FSEFieldType::Text => FSEFieldTypeArchiveTag::Text,
            FSEFieldType::Boolean => FSEFieldTypeArchiveTag::Boolean,
            FSEFieldType::TimestampMillis => FSEFieldTypeArchiveTag::TimestampMillis,
            FSEFieldType::Category => FSEFieldTypeArchiveTag::Category,
        }
    }

    /// Returns the runtime field type of this archive tag.
    pub fn to_field_type(self) -> (field_type: FSEFieldType)
        ensures
            field_type == field_type_of(self),
    {
        match self {
            FSEFieldTypeArchiveTag::Integer => FSEFieldType::Integer,
            FSEFieldTypeArchiveTag::Float => FSEFieldType::Float,
            FSEFieldTypeArchiveTag::Text => FSEFieldType::Text,
            FSEFieldTypeArchiveTag::Boolean => FSEFieldType::Boolean,
            FSEFieldTypeArchiveTag::TimestampMillis => FSEFieldType::TimestampMillis,
            FSEFieldTypeArchiveTag::Category => FSEFieldType::Category,
        }
    }
}

/// Converting a field type to its archive tag and back gives the field type,
/// and converting a tag to its field type and back gives the tag.
pub proof fn lemma_field_type_tag_round_trip(field_type: FSEFieldType, tag: FSEFieldTypeArchiveTag)
    ensures
        field_type_of(archive_tag_of(field_type)) == field_type,
        archive_tag_of(field_type_of(tag)) == tag,
{
}

/// Serializable field metadata.
#[derive(Clone, Debug, PartialEq, Eq)]
pub struct FSEFieldArchiveRecord {
    /// Stable field name.
    pub name: String,
    /// Logical field type.
    pub field_type: FSEFieldTypeArchiveTag,
    /// Whether the field accepts null values.
    pub nullable: bool,
}

impl FSEFieldArchiveRecord {
    /// Creates archive field metadata from runtime field metadata.
    pub fn from_field(field: &FSEField) -> (record: Self)
        ensures
            record.name@ == field.name@,
            record.field_type == archive_tag_of(field.field_type),
            record.nullable == field.nullable,
    {
        FSEFieldArchiveRecord {
            name: field.name.clone(),
            field_type: FSEFieldTypeArchiveTag::from_field_type(field.field_type),
            nullable: field.nullable,
        }
    }

    /// Rebuilds runtime field metadata from the archive record.
    pub fn to_field(&self) -> (field: FSEField)
        ensures
            field.name@ == self.name@,
            field.field_type == field_type_of(self.field_type),
            field.nullable == self.nullable,
    {
        FSEField::new(self.name.clone(), self.field_type.to_field_type(), self.nullable)
    }
}

/// Serializable typed value. A floating point value is held as the bit pattern
/// of its IEEE 754 binary64 representation, which is what the archive stores.
#[derive(Clone, Debug, PartialEq, Eq)]
pub enum FSEValueArchiveRecord {
    /// Signed 64-bit integer value.
    Integer(i64),
    /// 64-bit floating point value, as its bit pattern.
    Float(u64),
    /// UTF-8 string value.
    Text(String),
    /// Boolean value.
    Boolean(bool),
    /// Timestamp value represented as milliseconds since the Unix epoch.
    TimestampMillis(i64),
    /// Categorical value represented by a stable label.
    Category(String),
    /// Missing value.
    Null,
}

/// Serializable typed record.
#[derive(Clone, Debug, PartialEq, Eq)]
pub struct FSERecordArchiveRecord {
    /// Values stored in schema order.
    pub values: Vec<FSEValueArchiveRecord>,
}

/// Serializable snapshot of a typed record batch.
#[derive(Clone, Debug, PartialEq, Eq)]
pub struct FSERecordBatchArchiveSnapshot {
    /// Schema fields in runtime order.
    pub schema_fields: Vec<FSEFieldArchiveRecord>,
    /// Row identifiers in record order.
    pub row_ids: Vec<u64>,
    /// Typed records in row identifier order.
    pub records: Vec<FSERecordArchiveRecord>,
}

} // verus!
