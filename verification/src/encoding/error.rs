//! Encoding error types.
use vstd::prelude::*;

use crate::data::FSEFieldType;
use crate::text::{field_type_text, owned_text, push_field_type};
use vstd::string::StringExecFns;

verus! {

/// Error returned when typed values cannot be encoded.
#[derive(Clone, Debug, PartialEq, Eq)]
pub enum FSEEncodingError {
    /// The encoder received a null value that it cannot encode.
    NullValue,
    /// The value type did not match the encoder input type.
    FieldTypeMismatch {
        /// Field type expected by the encoder.
        expected: FSEFieldType,
        /// Field type found in the value.
        actual: FSEFieldType,
    },
    /// The value cannot be represented by the encoder.
    UnsupportedValue {
        /// Explanation suitable for diagnostics.
        reason: String,
    },
}


/// Diagnostic text of an encoding error: an unsupported value is reported
/// with its stated reason.
pub open spec fn encoding_error_text(error: FSEEncodingError) -> Seq<char> {
    match error {
        FSEEncodingError::NullValue => "encoder cannot encode null value"@,
        FSEEncodingError::FieldTypeMismatch { expected, actual } => "encoder expected "@
            + field_type_text(expected) + " but found "@ + field_type_text(actual),
        FSEEncodingError::UnsupportedValue { reason } => reason@,
    }
}

impl FSEEncodingError {
    /// Returns the diagnostic text for the error.
    pub fn description(&self) -> (text: String)
        ensures
            text@ == encoding_error_text(*self),
    {
        match self {
            FSEEncodingError::NullValue => owned_text("encoder cannot encode null value"),
            FSEEncodingError::FieldTypeMismatch { expected, actual } => {
                let mut text = owned_text("encoder expected ");
                push_field_type(&mut text, expected);
                text.append(" but found ");
                push_field_type(&mut text, actual);
                text
            },
            FSEEncodingError::UnsupportedValue { reason } => owned_text(reason.as_str()),
        }
    }
}

} // verus!
