//! Deriving record encoder metadata from the values of a typed record batch.
//!
//! Every field gets the exact encoder of its type; a categorical field gets a
//! dictionary of the labels it holds, in the order they first appear. Text
//! fields have no encoder, and no value may be null.
use vstd::prelude::*;

use crate::persistence::record_batch::{
    field_type_of, FSEFieldTypeArchiveTag, FSERecordArchiveRecord, FSERecordBatchArchiveSnapshot,
    FSEValueArchiveRecord,
};
use crate::text::str_eq;

use super::categorical::{dictionary_error, CategoricalDictionaryEncoder};
use super::metadata::{FSEFieldEncoderMetadata, FSERecordEncoderMetadata};
use super::record::ComposedRecordEncoderFromBatchError;

verus! {

/// Position of the first null value at or after `field`, among the values that
/// the schema's `field_count` fields name.
pub open spec fn first_null_field(values: Seq<FSEValueArchiveRecord>, field_count: int, field: int) -> Option<int>
    decreases values.len() - field,
{
    if field < 0 || field >= values.len() || field >= field_count {
        None
    } else if values[field] is Null {
        Some(field)
    } else {
        first_null_field(values, field_count, field + 1)
    }
}

/// The first null value in record order at or after record `record`, as its
/// record and field positions.
pub open spec fn first_null_value(records: Seq<FSERecordArchiveRecord>, field_count: int, record: int) -> Option<
    (int, int),
>
    decreases records.len() - record,
{
    if record < 0 || record >= records.len() {
        None
    } else {
        match first_null_field(records[record].values@, field_count, 0) {
            Some(field) => Some((record, field)),
            None => first_null_value(records, field_count, record + 1),
        }
    }
}

/// Some label of `labels` has the characters of `label`.
pub open spec fn holds_label(labels: Seq<String>, label: String) -> bool {
    exists|i: int| 0 <= i < labels.len() && #[trigger] labels[i]@ == label@
}

/// The category labels of field `field` in the first `count` records, each once,
/// in the order they first appear.
pub open spec fn observed_categories(records: Seq<FSERecordArchiveRecord>, field: int, count: int) -> Seq<
    String,
>
    decreases count,
{
    if count <= 0 {
        Seq::empty()
    } else {
        let before = observed_categories(records, field, count - 1);
        let values = records[count - 1].values@;
        if 0 <= field < values.len() {
            match values[field] {
                FSEValueArchiveRecord::Category(label) => if holds_label(before, label) {
                    before
                } else {
                    before.push(label)
                },
                _ => before,
            }
        } else {
            before
        }
    }
}

/// Why field `field` of the batch has no derived encoder, if it has none.
pub open spec fn derived_field_error(batch: FSERecordBatchArchiveSnapshot, field: int) -> Option<
    ComposedRecordEncoderFromBatchError,
> {
    let schema_field = batch.schema_fields@[field];
    match schema_field.field_type {
        FSEFieldTypeArchiveTag::Text => Some(
            ComposedRecordEncoderFromBatchError::UnsupportedFieldType {
                field: field as usize,
                name: schema_field.name,
                field_type: field_type_of(schema_field.field_type),
            },
        ),
        FSEFieldTypeArchiveTag::Category => match dictionary_error(
            observed_categories(batch.records@, field, batch.records@.len() as int),
        ) {
            Some(source) => Some(
                ComposedRecordEncoderFromBatchError::CategoryDictionary {
                    field: field as usize,
                    name: schema_field.name,
                    source,
                },
            ),
            None => None,
        },
        _ => None,
    }
}

/// The error of the first field at or after `field` that has no derived encoder.
pub open spec fn first_derived_field_error(batch: FSERecordBatchArchiveSnapshot, field: int) -> Option<
    ComposedRecordEncoderFromBatchError,
>
    decreases batch.schema_fields@.len() - field,
{
    if field < 0 || field >= batch.schema_fields@.len() {
        None
    } else {
        match derived_field_error(batch, field) {
            Some(error) => Some(error),
            None => first_derived_field_error(batch, field + 1),
        }
    }
}

/// `metadata` is the encoder derived for field `field`: the exact encoder of
/// its type, with the observed labels for a categorical field.
pub open spec fn is_derived_field_metadata(
    metadata: FSEFieldEncoderMetadata,
    batch: FSERecordBatchArchiveSnapshot,
    field: int,
) -> bool {
    match batch.schema_fields@[field].field_type {
        FSEFieldTypeArchiveTag::Integer => metadata is Integer,
        FSEFieldTypeArchiveTag::Float => metadata is Float,
        FSEFieldTypeArchiveTag::Boolean => metadata is Boolean,
        FSEFieldTypeArchiveTag::TimestampMillis => metadata is TimestampMillis,
        FSEFieldTypeArchiveTag::Category => metadata matches FSEFieldEncoderMetadata::CategoryDictionary {
            categories,
        } && categories@ == observed_categories(batch.records@, field, batch.records@.len() as int),
        FSEFieldTypeArchiveTag::Text => false,
    }
}

/// Every category label that field `field` holds in the first `count` records
/// is among the observed labels, so the derived dictionary can encode each value
/// of the batch.
pub proof fn lemma_observed_categories_cover(
    records: Seq<FSERecordArchiveRecord>,
    field: int,
    count: int,
    record: int,
)
    requires
        0 <= record < count <= records.len(),
        0 <= field < records[record].values@.len(),
        records[record].values@[field] is Category,
    ensures
        holds_label(
            observed_categories(records, field, count),
            records[record].values@[field]->Category_0,
        ),
    decreases count,
{
    let label = records[record].values@[field]->Category_0;
    let before = observed_categories(records, field, count - 1);
    let after = observed_categories(records, field, count);
    let values = records[count - 1].values@;
    let pushed = 0 <= field < values.len() && values[field] is Category && !holds_label(
        before,
        values[field]->Category_0,
    );
    if pushed {
        assert(after == before.push(values[field]->Category_0));
    } else {
        assert(after == before);
    }
    if record < count - 1 {
        lemma_observed_categories_cover(records, field, count - 1, record);
        let i = choose|i: int| 0 <= i < before.len() && #[trigger] before[i]@ == label@;
        assert(after[i]@ == label@);
    } else if holds_label(before, label) {
        let i = choose|i: int| 0 <= i < before.len() && #[trigger] before[i]@ == label@;
        assert(after[i]@ == label@);
    } else {
        assert(after[before.len() as int]@ == label@);
    }
}

fn first_null_in_record(values: &[FSEValueArchiveRecord], field_count: usize) -> (field: Option<usize>)
    ensures
        match first_null_field(values@, field_count as int, 0) {
            Some(position) => field == Some(position as usize),
            None => field is None,
        },
{
    let mut field: usize = 0;
    while field < values.len() && field < field_count
        invariant
            field <= values@.len(),
            first_null_field(values@, field_count as int, 0) == first_null_field(
                values@,
                field_count as int,
                field as int,
            ),
        decreases values@.len() - field,
    {
        if let FSEValueArchiveRecord::Null = values[field] {
            return Some(field);
        }
        field = field + 1;
    }
    None
}

fn find_first_null(records: &[FSERecordArchiveRecord], field_count: usize) -> (found: Option<(usize, usize)>)
    ensures
        match first_null_value(records@, field_count as int, 0) {
            Some((record, field)) => found == Some((record as usize, field as usize)),
            None => found is None,
        },
{
    let mut record: usize = 0;
    while record < records.len()
        invariant
            record <= records@.len(),
            first_null_value(records@, field_count as int, 0) == first_null_value(
                records@,
                field_count as int,
                record as int,
            ),
        decreases records@.len() - record,
    {
        match first_null_in_record(records[record].values.as_slice(), field_count) {
            Some(field) => {
                proof {
                    lemma_first_null_field_bound(records@[record as int].values@, field_count as int, 0);
                }
                return Some((record, field));
            },
            None => {},
        }
        record = record + 1;
    }
    None
}

proof fn lemma_first_null_field_bound(values: Seq<FSEValueArchiveRecord>, field_count: int, field: int)
    ensures
        first_null_field(values, field_count, field) matches Some(position) ==> field <= position
            < values.len(),
    decreases values.len() - field,
{
    if 0 <= field < values.len() && field < field_count && !(values[field] is Null) {
        lemma_first_null_field_bound(values, field_count, field + 1);
    }
}

fn contains_label(labels: &Vec<String>, label: &String) -> (found: bool)
    ensures
        found == holds_label(labels@, *label),
{
    let mut index: usize = 0;
    while index < labels.len()
        invariant
            index <= labels@.len(),
            forall|i: int| 0 <= i < index ==> labels@[i]@ != label@,
        decreases labels@.len() - index,
    {
        if str_eq(labels[index].as_str(), label.as_str()) {
            return true;
        }
        index = index + 1;
    }
    false
}

fn collect_categories(records: &[FSERecordArchiveRecord], field: usize) -> (labels: Vec<String>)
    ensures
        labels@ == observed_categories(records@, field as int, records@.len() as int),
{
    let mut labels: Vec<String> = Vec::new();
    let mut record: usize = 0;
    while record < records.len()
        invariant
            record <= records@.len(),
            labels@ == observed_categories(records@, field as int, record as int),
        decreases records@.len() - record,
    {
        let values = &records[record].values;
        if field < values.len() {
            match &values[field] {
                FSEValueArchiveRecord::Category(label) => {
                    if !contains_label(&labels, label) {
                        labels.push(label.clone());
                    }
                },
                _ => {},
            }
        }
        record = record + 1;
    }
    labels
}

fn copy_labels(labels: &[String]) -> (copy: Vec<String>)
    ensures
        copy@ == labels@,
{
    let mut copy: Vec<String> = Vec::with_capacity(labels.len());
    let mut index: usize = 0;
    while index < labels.len()
        invariant
            index <= labels@.len(),
            copy@ == labels@.subrange(0, index as int),
        decreases labels@.len() - index,
    {
        copy.push(labels[index].clone());
        proof {
            assert(copy@ =~= labels@.subrange(0, index + 1));
        }
        index = index + 1;
    }
    assert(copy@ =~= labels@);
    copy
}

fn derive_field_metadata(batch: &FSERecordBatchArchiveSnapshot, field: usize) -> (result: Result<
    FSEFieldEncoderMetadata,
    ComposedRecordEncoderFromBatchError,
>)
    requires
        field < batch.schema_fields@.len(),
    ensures
        match derived_field_error(*batch, field as int) {
            Some(error) => result == Err::<FSEFieldEncoderMetadata, ComposedRecordEncoderFromBatchError>(error),
            None => result matches Ok(metadata) && is_derived_field_metadata(metadata, *batch, field as int),
        },
{
    let schema_field = &batch.schema_fields[field];
    match schema_field.field_type {
        FSEFieldTypeArchiveTag::Integer => Ok(FSEFieldEncoderMetadata::Integer),
        FSEFieldTypeArchiveTag::Float => Ok(FSEFieldEncoderMetadata::Float),
        FSEFieldTypeArchiveTag::Boolean => Ok(FSEFieldEncoderMetadata::Boolean),
        FSEFieldTypeArchiveTag::TimestampMillis => Ok(FSEFieldEncoderMetadata::TimestampMillis),
        FSEFieldTypeArchiveTag::Text => Err(
            ComposedRecordEncoderFromBatchError::UnsupportedFieldType {
                field,
                name: schema_field.name.clone(),
                field_type: schema_field.field_type.to_field_type(),
            },
        ),
        FSEFieldTypeArchiveTag::Category => {
            let categories = collect_categories(batch.records.as_slice(), field);
            match CategoricalDictionaryEncoder::try_new(copy_labels(categories.as_slice())) {
                Ok(_) => Ok(FSEFieldEncoderMetadata::CategoryDictionary { categories }),
                Err(source) => Err(
                    ComposedRecordEncoderFromBatchError::CategoryDictionary {
                        field,
                        name: schema_field.name.clone(),
                        source,
                    },
                ),
            }
        },
    }
}

impl FSERecordEncoderMetadata {
    /// Derives record encoder metadata from the values of a typed record batch:
    /// the first null value in record order is refused, then the first field
    /// without an encoder; otherwise each field gets the encoder of its type,
    /// and each categorical field the labels it holds, in first-seen order.
    pub fn from_batch(batch: &FSERecordBatchArchiveSnapshot) -> (result: Result<
        Self,
        ComposedRecordEncoderFromBatchError,
    >)
        ensures
            match first_null_value(batch.records@, batch.schema_fields@.len() as int, 0) {
                Some((record, field)) => result == Err::<Self, ComposedRecordEncoderFromBatchError>(
                    ComposedRecordEncoderFromBatchError::NullFieldValue {
                        record: record as usize,
                        field: field as usize,
                        name: batch.schema_fields@[field].name,
                    },
                ),
                None => match first_derived_field_error(*batch, 0) {
                    Some(error) => result == Err::<Self, ComposedRecordEncoderFromBatchError>(error),
                    None => result matches Ok(metadata) && metadata@.len() == batch.schema_fields@.len()
                        && forall|field: int|
                        0 <= field < metadata@.len() ==> is_derived_field_metadata(
                            #[trigger] metadata@[field],
                            *batch,
                            field,
                        ),
                },
            },
    {
        match find_first_null(batch.records.as_slice(), batch.schema_fields.len()) {
            Some((record, field)) => {
                proof {
                    lemma_first_null_value_bound(batch.records@, batch.schema_fields@.len() as int, 0);
                }
                return Err(
                    ComposedRecordEncoderFromBatchError::NullFieldValue {
                        record,
                        field,
                        name: batch.schema_fields[field].name.clone(),
                    },
                );
            },
            None => {},
        }
        let mut fields: Vec<FSEFieldEncoderMetadata> = Vec::with_capacity(batch.schema_fields.len());
        let mut field: usize = 0;
        while field < batch.schema_fields.len()
            invariant
                field <= batch.schema_fields@.len(),
                fields@.len() == field,
                first_null_value(batch.records@, batch.schema_fields@.len() as int, 0) is None,
                first_derived_field_error(*batch, 0) == first_derived_field_error(*batch, field as int),
                forall|f: int| 0 <= f < field ==> is_derived_field_metadata(#[trigger] fields@[f], *batch, f),
            decreases batch.schema_fields@.len() - field,
        {
            let metadata = match derive_field_metadata(batch, field) {
                Ok(metadata) => metadata,
                Err(error) => return Err(error),
            };
            fields.push(metadata);
            field = field + 1;
        }
        Ok(FSERecordEncoderMetadata::new(fields))
    }
}

proof fn lemma_first_null_value_bound(records: Seq<FSERecordArchiveRecord>, field_count: int, record: int)
    ensures
        first_null_value(records, field_count, record) matches Some((r, f)) ==> 0 <= r
            < records.len() && 0 <= f < field_count,
    decreases records.len() - record,
{
    if 0 <= record < records.len() {
        lemma_first_null_field_in_schema(records[record].values@, field_count, 0);
        lemma_first_null_value_bound(records, field_count, record + 1);
    }
}

proof fn lemma_first_null_field_in_schema(values: Seq<FSEValueArchiveRecord>, field_count: int, field: int)
    requires
        0 <= field,
    ensures
        first_null_field(values, field_count, field) matches Some(position) ==> field <= position
            < field_count,
    decreases values.len() - field,
{
    if 0 <= field < values.len() && field < field_count && !(values[field] is Null) {
        lemma_first_null_field_in_schema(values, field_count, field + 1);
    }
}

} // verus!
