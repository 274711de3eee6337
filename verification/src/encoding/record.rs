//! Errors of composed record encoders.
use vstd::prelude::*;
use vstd::std_specs::convert::FromSpecImpl;

use crate::data::FSEFieldType;

use super::categorical::{dictionary_error_text, CategoricalDictionaryError};
use crate::text::{decimal_text, field_type_text, owned_text, push_decimal, push_field_type};
use vstd::string::StringExecFns;

verus! {

/// Error returned when checked composed record encoder construction fails.
#[derive(Clone, Debug, PartialEq, Eq)]
pub enum ComposedRecordEncoderError {
    /// The number of field encoders did not match the schema field count.
    EncoderCountMismatch {
        /// Number of field encoders provided.
        encoder_count: usize,
        /// Number of fields required by the schema.
        field_count: usize,
    },
    /// A field encoder accepted a different type than the corresponding schema field.
    FieldTypeMismatch {
        /// Field index containing the mismatched encoder.
        field: usize,
        /// Field name containing the mismatched encoder.
        name: String,
        /// Field type required by the schema.
        expected: FSEFieldType,
        /// Field type accepted by the encoder.
        actual: FSEFieldType,
    },
}

/// Diagnostic text of a composed record encoder error.
pub open spec fn composed_encoder_error_message(error: ComposedRecordEncoderError) -> &'static str {
    match error {
        ComposedRecordEncoderError::EncoderCountMismatch { .. } => {
            "record encoder field encoder count does not match the schema"
        },
        ComposedRecordEncoderError::FieldTypeMismatch { .. } => {
            "field encoder type does not match the schema field"
        },
    }
}

impl ComposedRecordEncoderError {
    /// Returns a short diagnostic message for the error, without the values it
    /// names; `description` gives the full text.
    pub fn message(&self) -> (message: &'static str)
        ensures
            message == composed_encoder_error_message(*self),
    {
        match self {
            ComposedRecordEncoderError::EncoderCountMismatch { .. } => {
                "record encoder field encoder count does not match the schema"
            },
            ComposedRecordEncoderError::FieldTypeMismatch { .. } => {
                "field encoder type does not match the schema field"
            },
        }
    }
}

/// Error returned when deriving a composed record encoder from a batch fails.
#[derive(Clone, Debug, PartialEq, Eq)]
pub enum ComposedRecordEncoderFromBatchError {
    /// A field type has no default exact encoder.
    UnsupportedFieldType {
        /// Field index containing the unsupported type.
        field: usize,
        /// Field name containing the unsupported type.
        name: String,
        /// Unsupported field type.
        field_type: FSEFieldType,
    },
    /// A null value was found in a field without a null encoder.
    NullFieldValue {
        /// Record index containing the null value.
        record: usize,
        /// Field index containing the null value.
        field: usize,
        /// Field name containing the null value.
        name: String,
    },
    /// A categorical dictionary could not be built.
    CategoryDictionary {
        /// Field index containing the categorical value.
        field: usize,
        /// Field name containing the categorical value.
        name: String,
        /// Dictionary construction error.
        source: CategoricalDictionaryError,
    },
    /// The derived encoder did not satisfy the schema.
    Encoder(ComposedRecordEncoderError),
}

impl From<ComposedRecordEncoderError> for ComposedRecordEncoderFromBatchError {
    fn from(error: ComposedRecordEncoderError) -> (converted: Self) {
        ComposedRecordEncoderFromBatchError::Encoder(error)
    }
}

impl FromSpecImpl<ComposedRecordEncoderError> for ComposedRecordEncoderFromBatchError {
    open spec fn obeys_from_spec() -> bool {
        true
    }

    open spec fn from_spec(error: ComposedRecordEncoderError) -> Self {
        ComposedRecordEncoderFromBatchError::Encoder(error)
    }
}

/// Diagnostic text of a composed record encoder error, with the counts, field
/// name and types it names.
pub open spec fn composed_encoder_error_text(error: ComposedRecordEncoderError) -> Seq<char> {
    match error {
        ComposedRecordEncoderError::EncoderCountMismatch { encoder_count, field_count } => {
            "record encoder has "@ + decimal_text(encoder_count as nat)
                + " field encoders but schema requires "@ + decimal_text(field_count as nat)
        },
        ComposedRecordEncoderError::FieldTypeMismatch { name, expected, actual, .. } => {
            "field '"@ + name@ + "' encoder expected "@ + field_type_text(expected) + " but found "@
                + field_type_text(actual)
        },
    }
}

impl ComposedRecordEncoderError {
    /// Returns the diagnostic text for the error, with the counts, field name
    /// and types it names.
    pub fn description(&self) -> (text: String)
        ensures
            text@ == composed_encoder_error_text(*self),
    {
        match self {
            ComposedRecordEncoderError::EncoderCountMismatch { encoder_count, field_count } => {
                let mut text = owned_text("record encoder has ");
                push_decimal(&mut text, *encoder_count as u64);
                text.append(" field encoders but schema requires ");
                push_decimal(&mut text, *field_count as u64);
                text
            },
            ComposedRecordEncoderError::FieldTypeMismatch { name, expected, actual, .. } => {
                let mut text = owned_text("field '");
                text.append(name.as_str());
                text.append("' encoder expected ");
                push_field_type(&mut text, expected);
                text.append(" but found ");
                push_field_type(&mut text, actual);
                text
            },
        }
    }
}

/// Diagnostic text of an error in deriving a composed record encoder from a
/// batch: a dictionary or encoder error is reported with its own text.
pub open spec fn derived_encoder_error_text(error: ComposedRecordEncoderFromBatchError) -> Seq<char> {
    match error {
        ComposedRecordEncoderFromBatchError::UnsupportedFieldType { name, field_type, .. } => {
            "field '"@ + name@ + "' with type "@ + field_type_text(field_type)
                + " has no derived encoder"@
        },
        ComposedRecordEncoderFromBatchError::NullFieldValue { record, name, .. } => {
            "record "@ + decimal_text(record as nat) + " field '"@ + name@
                + "' is null and has no derived encoder"@
        },
        ComposedRecordEncoderFromBatchError::CategoryDictionary { source, .. } => {
            dictionary_error_text(source)
        },
        ComposedRecordEncoderFromBatchError::Encoder(error) => composed_encoder_error_text(error),
    }
}

impl ComposedRecordEncoderFromBatchError {
    /// Returns the diagnostic text for the error; a dictionary or encoder error
    /// is reported with its own text.
    pub fn description(&self) -> (text: String)
        ensures
            text@ == derived_encoder_error_text(*self),
    {
        match self {
            ComposedRecordEncoderFromBatchError::UnsupportedFieldType { name, field_type, .. } => {
                let mut text = owned_text("field '");
                text.append(name.as_str());
                text.append("' with type ");
                push_field_type(&mut text, field_type);
                text.append(" has no derived encoder");
                text
            },
            ComposedRecordEncoderFromBatchError::NullFieldValue { record, name, .. } => {
                let mut text = owned_text("record ");
                push_decimal(&mut text, *record as u64);
                text.append(" field '");
                text.append(name.as_str());
                text.append("' is null and has no derived encoder");
                text
            },
            ComposedRecordEncoderFromBatchError::CategoryDictionary { source, .. } => {
                source.description()
            },
            ComposedRecordEncoderFromBatchError::Encoder(error) => error.description(),
        }
    }
}

} // verus!
