//! Encoder metadata for FSE-native typed records.
use vstd::prelude::*;
use vstd::std_specs::convert::FromSpecImpl;

use crate::data::FSEFieldType;

use super::categorical::{dictionary_error_message, CategoricalDictionaryError};
use super::record::{composed_encoder_error_message, composed_encoder_error_text, ComposedRecordEncoderError};
use super::categorical::dictionary_error_text;
use crate::text::{decimal_text, field_type_text, owned_text, push_decimal, push_field_type};
use vstd::string::StringExecFns;

verus! {

/// Error returned when record encoder metadata cannot build a runtime encoder.
#[derive(Clone, Debug, PartialEq, Eq)]
pub enum FSERecordEncoderMetadataError {
    /// The number of field metadata records did not match the schema field count.
    FieldCountMismatch {
        /// Number of field metadata records.
        metadata_count: usize,
        /// Number of fields required by the schema.
        field_count: usize,
    },
    /// A field metadata record had a different type than the schema field.
    FieldTypeMismatch {
        /// Field index containing the mismatch.
        field: usize,
        /// Field name containing the mismatch.
        name: String,
        /// Field type required by the schema.
        expected: FSEFieldType,
        /// Field type stored by the metadata.
        actual: FSEFieldType,
    },
    /// A categorical dictionary metadata record was invalid.
    CategoryDictionary {
        /// Field index containing the categorical dictionary.
        field: usize,
        /// Field name containing the categorical dictionary.
        name: String,
        /// Dictionary validation error.
        source: CategoricalDictionaryError,
    },
    /// The constructed record encoder did not satisfy the schema.
    Encoder(ComposedRecordEncoderError),
}

/// Diagnostic text of a record encoder metadata error: a dictionary or encoder
/// error is reported with its own text.
pub open spec fn record_encoder_metadata_error_message(error: FSERecordEncoderMetadataError) -> &'static str {
    match error {
        FSERecordEncoderMetadataError::FieldCountMismatch { .. } => {
            "record encoder metadata field count does not match the schema"
        },
        FSERecordEncoderMetadataError::FieldTypeMismatch { .. } => {
            "field metadata type does not match the schema field"
        },
        FSERecordEncoderMetadataError::CategoryDictionary { source, .. } => dictionary_error_message(
            source,
        ),
        FSERecordEncoderMetadataError::Encoder(error) => composed_encoder_error_message(error),
    }
}

impl FSERecordEncoderMetadataError {
    /// Returns a short diagnostic message for the error, without the values it
    /// names; `description` gives the full text.
    pub fn message(&self) -> (message: &'static str)
        ensures
            message == record_encoder_metadata_error_message(*self),
    {
        match self {
            FSERecordEncoderMetadataError::FieldCountMismatch { .. } => {
                "record encoder metadata field count does not match the schema"
            },
            FSERecordEncoderMetadataError::FieldTypeMismatch { .. } => {
                "field metadata type does not match the schema field"
            },
            FSERecordEncoderMetadataError::CategoryDictionary { source, .. } => source.message(),
            FSERecordEncoderMetadataError::Encoder(error) => error.message(),
        }
    }
}

/// Diagnostic text of a record encoder metadata error, with the counts, field
/// name and types it names; a dictionary or encoder error is reported with its
/// own text.
pub open spec fn record_encoder_metadata_error_text(error: FSERecordEncoderMetadataError) -> Seq<char> {
    match error {
        FSERecordEncoderMetadataError::FieldCountMismatch { metadata_count, field_count } => {
            "record encoder metadata has "@ + decimal_text(metadata_count as nat)
                + " fields but schema requires "@ + decimal_text(field_count as nat)
        },
        FSERecordEncoderMetadataError::FieldTypeMismatch { name, expected, actual, .. } => {
            "field '"@ + name@ + "' metadata expected "@ + field_type_text(expected)
                + " but found "@ + field_type_text(actual)
        },
        FSERecordEncoderMetadataError::CategoryDictionary { source, .. } => dictionary_error_text(
            source,
        ),
        FSERecordEncoderMetadataError::Encoder(error) => composed_encoder_error_text(error),
    }
}

impl FSERecordEncoderMetadataError {
    /// Returns the diagnostic text for the error, with the counts, field name
    /// and types it names; a dictionary or encoder error is reported with its
    /// own text.
    pub fn description(&self) -> (text: String)
        ensures
            text@ == record_encoder_metadata_error_text(*self),
    {
        match self {
            FSERecordEncoderMetadataError::FieldCountMismatch { metadata_count, field_count } => {
                let mut text = owned_text("record encoder metadata has ");
                push_decimal(&mut text, *metadata_count as u64);
                text.append(" fields but schema requires ");
                push_decimal(&mut text, *field_count as u64);
                text
            },
            FSERecordEncoderMetadataError::FieldTypeMismatch { name, expected, actual, .. } => {
                let mut text = owned_text("field '");
                text.append(name.as_str());
                text.append("' metadata expected ");
                push_field_type(&mut text, expected);
                text.append(" but found ");
                push_field_type(&mut text, actual);
                text
            },
            FSERecordEncoderMetadataError::CategoryDictionary { source, .. } => source.description(),
            FSERecordEncoderMetadataError::Encoder(error) => error.description(),
        }
    }
}

impl From<ComposedRecordEncoderError> for FSERecordEncoderMetadataError {
    fn from(error: ComposedRecordEncoderError) -> (converted: Self) {
        FSERecordEncoderMetadataError::Encoder(error)
    }
}

impl FromSpecImpl<ComposedRecordEncoderError> for FSERecordEncoderMetadataError {
    open spec fn obeys_from_spec() -> bool {
        true
    }

    open spec fn from_spec(error: ComposedRecordEncoderError) -> Self {
        FSERecordEncoderMetadataError::Encoder(error)
    }
}

/// Schema-ordered metadata for one field encoder.
#[derive(Clone, Debug, PartialEq, Eq)]
pub enum FSEFieldEncoderMetadata {
    /// Signed integer encoder.
    Integer,
    /// Floating point encoder.
    Float,
    /// Boolean encoder.
    Boolean,
    /// Timestamp encoder for millisecond values.
    TimestampMillis,
    /// Dictionary-backed categorical encoder.
    CategoryDictionary {
        /// Category labels in dictionary order.
        categories: Vec<String>,
    },
}

/// The field type that a field encoder accepts.
pub open spec fn field_encoder_type(metadata: FSEFieldEncoderMetadata) -> FSEFieldType {
    match metadata {
        FSEFieldEncoderMetadata::Integer => FSEFieldType::Integer,
        FSEFieldEncoderMetadata::Float => FSEFieldType::Float,
        FSEFieldEncoderMetadata::Boolean => FSEFieldType::Boolean,
        FSEFieldEncoderMetadata::TimestampMillis => FSEFieldType::TimestampMillis,
        FSEFieldEncoderMetadata::CategoryDictionary { .. } => FSEFieldType::Category,
    }
}

impl FSEFieldEncoderMetadata {
    /// Returns the field type represented by this encoder metadata.
    pub fn field_type(&self) -> (field_type: FSEFieldType)
        ensures
            field_type == field_encoder_type(*self),
    {
        match self {
            FSEFieldEncoderMetadata::Integer => FSEFieldType::Integer,
            FSEFieldEncoderMetadata::Float => FSEFieldType::Float,
            FSEFieldEncoderMetadata::Boolean => FSEFieldType::Boolean,
            FSEFieldEncoderMetadata::TimestampMillis => FSEFieldType::TimestampMillis,
            FSEFieldEncoderMetadata::CategoryDictionary { .. } => FSEFieldType::Category,
        }
    }
}

/// Metadata required to rebuild a composed record encoder.
#[derive(Clone, Debug, PartialEq, Eq)]
pub struct FSERecordEncoderMetadata {
    fields: Vec<FSEFieldEncoderMetadata>,
}

impl View for FSERecordEncoderMetadata {
    type V = Seq<FSEFieldEncoderMetadata>;

    closed spec fn view(&self) -> Seq<FSEFieldEncoderMetadata> {
        self.fields@
    }
}

impl FSERecordEncoderMetadata {
    /// Creates record encoder metadata from field metadata records.
    pub fn new(fields: Vec<FSEFieldEncoderMetadata>) -> (metadata: Self)
        ensures
            metadata@ == fields@,
    {
        FSERecordEncoderMetadata { fields }
    }

    /// Returns field metadata records in schema order.
    pub fn fields(&self) -> (fields: &[FSEFieldEncoderMetadata])
        ensures
            fields@ == self@,
    {
        self.fields.as_slice()
    }
}

} // verus!
