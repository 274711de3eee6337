//! UTF-8 helpers for comparing and converting text.
use vstd::prelude::*;
use vstd::string::{StringExecFns, StringSliceAdditionalSpecFns};
use vstd::utf8::{decode_utf8, encode_utf8, encode_utf8_decode_utf8, valid_utf8};

use crate::data::FSEFieldType;

verus! {

/// Two texts are equal exactly when their UTF-8 encodings are equal.
pub proof fn lemma_utf8_encoding_injective(left: Seq<char>, right: Seq<char>)
    ensures
        (encode_utf8(left) == encode_utf8(right)) <==> (left == right),
{
    encode_utf8_decode_utf8(left);
    encode_utf8_decode_utf8(right);
}

/// Returns whether two string slices hold the same characters.
pub fn str_eq(left: &str, right: &str) -> (equal: bool)
    ensures
        equal == (left@ == right@),
{
    let left_bytes = left.as_bytes();
    let right_bytes = right.as_bytes();
    proof {
        lemma_utf8_encoding_injective(left@, right@);
    }
    if left_bytes.len() != right_bytes.len() {
        return false;
    }
    let mut index: usize = 0;
    while index < left_bytes.len()
        invariant
            left_bytes@ == left.spec_bytes(),
            right_bytes@ == right.spec_bytes(),
            left_bytes@.len() == right_bytes@.len(),
            index <= left_bytes@.len(),
            forall|i: int| 0 <= i < index ==> left_bytes@[i] == right_bytes@[i],
        decreases left_bytes@.len() - index,
    {
        if left_bytes[index] != right_bytes[index] {
            return false;
        }
        index = index + 1;
    }
    assert(left_bytes@ =~= right_bytes@);
    true
}

/// `String::from_utf8` decodes the bytes exactly when they form valid UTF-8;
/// the returned string holds the decoded characters.
#[verifier::external_body]
pub(crate) fn string_from_utf8(bytes: Vec<u8>) -> (result: Option<String>)
    ensures
        result is Some <==> valid_utf8(bytes@),
        result matches Some(text) ==> text@ == decode_utf8(bytes@),
{
    String::from_utf8(bytes).ok()
}

/// The decimal digit `digit`, for digits below ten.
pub open spec fn digit_text(digit: nat) -> Seq<char> {
    if digit == 0 {
        "0"@
    } else if digit == 1 {
        "1"@
    } else if digit == 2 {
        "2"@
    } else if digit == 3 {
        "3"@
    } else if digit == 4 {
        "4"@
    } else if digit == 5 {
        "5"@
    } else if digit == 6 {
        "6"@
    } else if digit == 7 {
        "7"@
    } else if digit == 8 {
        "8"@
    } else {
        "9"@
    }
}

/// The decimal numeral of `value`, without leading zeros.
pub open spec fn decimal_text(value: nat) -> Seq<char>
    decreases value,
{
    if value < 10 {
        digit_text(value)
    } else {
        decimal_text(value / 10) + digit_text(value % 10)
    }
}

/// Appends the decimal numeral of `value` to `text`.
pub fn push_decimal(text: &mut String, value: u64)
    ensures
        final(text)@ == old(text)@ + decimal_text(value as nat),
    decreases value,
{
    if value >= 10 {
        push_decimal(text, value / 10);
    }
    let digit = value % 10;
    if digit == 0 {
        text.append("0");
    } else if digit == 1 {
        text.append("1");
    } else if digit == 2 {
        text.append("2");
    } else if digit == 3 {
        text.append("3");
    } else if digit == 4 {
        text.append("4");
    } else if digit == 5 {
        text.append("5");
    } else if digit == 6 {
        text.append("6");
    } else if digit == 7 {
        text.append("7");
    } else if digit == 8 {
        text.append("8");
    } else {
        text.append("9");
    }
    proof {
        if value >= 10 {
            assert(text@ =~= old(text)@ + decimal_text(value as nat));
        }
    }
}

/// The name of a field type as it is written in diagnostics.
pub open spec fn field_type_text(field_type: FSEFieldType) -> Seq<char> {
    match field_type {
        FSEFieldType::Integer => "Integer"@,
        FSEFieldType::Float => "Float"@,
        FSEFieldType::Text => "Text"@,
        FSEFieldType::Boolean => "Boolean"@,
        FSEFieldType::TimestampMillis => "TimestampMillis"@,
        FSEFieldType::Category => "Category"@,
    }
}

/// Appends the name of `field_type` to `text`.
pub fn push_field_type(text: &mut String, field_type: &FSEFieldType)
    ensures
        final(text)@ == old(text)@ + field_type_text(*field_type),
{
    match field_type {
        FSEFieldType::Integer => text.append("Integer"),
        FSEFieldType::Float => text.append("Float"),
        FSEFieldType::Text => text.append("Text"),
        FSEFieldType::Boolean => text.append("Boolean"),
        FSEFieldType::TimestampMillis => text.append("TimestampMillis"),
        FSEFieldType::Category => text.append("Category"),
    }
}

/// A string that holds the characters of `value`.
pub fn owned_text(value: &str) -> (text: String)
    ensures
        text@ == value@,
{
    let mut text = String::new();
    text.append(value);
    proof {
        assert(text@ =~= value@);
    }
    text
}

} // verus!
