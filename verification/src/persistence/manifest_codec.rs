//! Byte layout of the manifest at the head of a numeric index archive.
use vstd::bytes::*;
use vstd::prelude::*;
use vstd::utf8::{decode_utf8, encode_utf8};

use crate::bytes::{bool_byte, write_bool, write_u32, write_u64};
use crate::cursor::{le_u64, string_field_bytes, ByteCursor, CursorError};

use super::archive_codec::FSEArchiveCodecError;
use super::manifest::{FSEArchiveManifest, FSEArchiveSections};
use super::query_index_codec::{lemma_starts_with_split, starts_with, write_string};

verus! {

broadcast use vstd::utf8::encode_utf8_valid_utf8, vstd::utf8::encode_utf8_decode_utf8, vstd::utf8::decode_utf8_encode_utf8;

/// Bytes of a manifest: the magic as a length-prefixed UTF-8 string, the
/// version as a little-endian `u32`, the extension as a length-prefixed UTF-8
/// string, then the fixed-width numbers and flags.
pub open spec fn manifest_bytes(manifest: FSEArchiveManifest) -> Seq<u8> {
    string_field_bytes(manifest.magic@) + (spec_u32_to_le_bytes(manifest.format_version) + (
    string_field_bytes(manifest.file_extension@) + manifest_numbers_bytes(manifest)))
}

/// The fixed-width tail of a manifest: scalar size and dimensions as
/// little-endian `u32`s, record count, node count and root id as little-endian
/// `u64`s, then one byte per section flag.
pub open spec fn manifest_numbers_bytes(manifest: FSEArchiveManifest) -> Seq<u8> {
    spec_u32_to_le_bytes(manifest.scalar_size_bytes) + spec_u32_to_le_bytes(manifest.dimensions)
        + spec_u64_to_le_bytes(manifest.record_count) + spec_u64_to_le_bytes(manifest.node_count)
        + spec_u64_to_le_bytes(manifest.root_node_id) + seq![
        bool_byte(manifest.sections.dataset_metadata),
        bool_byte(manifest.sections.schema_metadata),
        bool_byte(manifest.sections.encoder_metadata),
    ]
}

/// Two manifests hold the same strings, numbers and section flags.
pub open spec fn manifest_matches(left: FSEArchiveManifest, right: FSEArchiveManifest) -> bool {
    &&& left.magic@ == right.magic@
    &&& left.format_version == right.format_version
    &&& left.file_extension@ == right.file_extension@
    &&& left.scalar_size_bytes == right.scalar_size_bytes
    &&& left.dimensions == right.dimensions
    &&& left.record_count == right.record_count
    &&& left.node_count == right.node_count
    &&& left.root_node_id == right.root_node_id
    &&& left.sections == right.sections
}

/// The codec error for a failed primitive read of `field`.
pub open spec fn archive_read_error(error: CursorError, field: &'static str) -> FSEArchiveCodecError {
    match error {
        CursorError::UnexpectedEnd { needed, remaining } => {
            FSEArchiveCodecError::UnexpectedEndOfArchive { field, needed, remaining }
        },
        CursorError::LengthOutOfRange { length } => FSEArchiveCodecError::LengthOutOfRange {
            field,
            length,
        },
        CursorError::InvalidUtf8 { bytes } => FSEArchiveCodecError::InvalidUtf8 { field, bytes },
    }
}

fn lift(error: CursorError, field: &'static str) -> (lifted: FSEArchiveCodecError)
    ensures
        lifted == archive_read_error(error, field),
{
    match error {
        CursorError::UnexpectedEnd { needed, remaining } => {
            FSEArchiveCodecError::UnexpectedEndOfArchive { field, needed, remaining }
        },
        CursorError::LengthOutOfRange { length } => FSEArchiveCodecError::LengthOutOfRange {
            field,
            length,
        },
        CursorError::InvalidUtf8 { bytes } => FSEArchiveCodecError::InvalidUtf8 { field, bytes },
    }
}

/// Appends the bytes of a manifest.
pub fn write_manifest(out: &mut Vec<u8>, manifest: &FSEArchiveManifest)
    ensures
        final(out)@ == old(out)@ + manifest_bytes(*manifest),
{
    write_string(out, manifest.magic.as_str());
    write_u32(out, manifest.format_version);
    write_string(out, manifest.file_extension.as_str());
    write_u32(out, manifest.scalar_size_bytes);
    write_u32(out, manifest.dimensions);
    write_u64(out, manifest.record_count);
    write_u64(out, manifest.node_count);
    write_u64(out, manifest.root_node_id);
    write_bool(out, manifest.sections.dataset_metadata);
    write_bool(out, manifest.sections.schema_metadata);
    write_bool(out, manifest.sections.encoder_metadata);
    assert(out@ =~= old(out)@ + manifest_bytes(*manifest));
}

/// Reads a boolean byte, which must be `0` or `1`.
fn read_bool(cursor: &mut ByteCursor, field: &'static str) -> (result: Result<bool, FSEArchiveCodecError>)
    requires
        old(cursor).wf(),
    ensures
        final(cursor).wf(),
        final(cursor).bytes@ == old(cursor).bytes@,
        result matches Ok(flag) ==> old(cursor).rest() == seq![bool_byte(flag)] + final(cursor).rest(),
        old(cursor).rest().len() >= 1 && old(cursor).rest()[0] <= 1 ==> result is Ok,
        old(cursor).rest().len() >= 1 && old(cursor).rest()[0] > 1 ==> result == Err::<
            bool,
            FSEArchiveCodecError,
        >(FSEArchiveCodecError::InvalidBoolean { field, value: old(cursor).rest()[0] }),
{
    let value = match cursor.read_u8() {
        Ok(value) => value,
        Err(error) => return Err(lift(error, field)),
    };
    assert(old(cursor).rest() =~= seq![value] + cursor.rest());
    if value == 0 {
        Ok(false)
    } else if value == 1 {
        Ok(true)
    } else {
        Err(FSEArchiveCodecError::InvalidBoolean { field, value })
    }
}

/// Reads a length-prefixed UTF-8 string field named `field`.
fn read_archive_text(
    cursor: &mut ByteCursor,
    field: &'static str,
    Ghost(target): Ghost<Option<Seq<char>>>,
) -> (result: Result<String, FSEArchiveCodecError>)
    requires
        old(cursor).wf(),
        target matches Some(text) ==> starts_with(old(cursor).rest(), string_field_bytes(text)),
    ensures
        final(cursor).wf(),
        final(cursor).bytes@ == old(cursor).bytes@,
        result matches Ok(text) ==> old(cursor).rest() == string_field_bytes(text@)
            + final(cursor).rest(),
        target matches Some(text) ==> (result matches Ok(read) && read@ == text),
{
    proof {
        lemma_auto_spec_u64_to_from_le_bytes();
        if let Some(text) = target {
            let encoded = string_field_bytes(text);
            let rest = cursor.rest();
            assert(rest.subrange(0, 8) =~= encoded.subrange(0, 8));
            assert(encoded.subrange(0, 8) =~= spec_u64_to_le_bytes(encode_utf8(text).len() as u64));
            let length = encode_utf8(text).len() as int;
            assert(encoded.subrange(8, 8 + length) =~= encode_utf8(text));
            assert(rest.subrange(8, 8 + length) =~= rest.subrange(0, encoded.len() as int).subrange(
                8,
                8 + length,
            ));
        }
    }
    let text = match cursor.read_string() {
        Ok(text) => text,
        Err(error) => return Err(lift(error, field)),
    };
    proof {
        let rest = old(cursor).rest();
        let length = le_u64(rest);
        let bytes = rest.subrange(8, 8 + length);
        assert(encode_utf8(text@) == bytes);
        assert(spec_u64_to_le_bytes(length) == rest.subrange(0, 8));
        assert(rest =~= string_field_bytes(text@) + cursor.rest());
    }
    Ok(text)
}

/// Where the fixed-width fields of a manifest lie in bytes that begin with them.
proof fn lemma_numbers_layout(manifest: FSEArchiveManifest, bytes: Seq<u8>)
    requires
        starts_with(bytes, manifest_numbers_bytes(manifest)),
    ensures
        bytes.len() >= 35,
        bytes.subrange(0, 4) == spec_u32_to_le_bytes(manifest.scalar_size_bytes),
        bytes.subrange(4, 8) == spec_u32_to_le_bytes(manifest.dimensions),
        bytes.subrange(8, 16) == spec_u64_to_le_bytes(manifest.record_count),
        bytes.subrange(16, 24) == spec_u64_to_le_bytes(manifest.node_count),
        bytes.subrange(24, 32) == spec_u64_to_le_bytes(manifest.root_node_id),
        bytes[32] == bool_byte(manifest.sections.dataset_metadata),
        bytes[33] == bool_byte(manifest.sections.schema_metadata),
        bytes[34] == bool_byte(manifest.sections.encoder_metadata),
{
    lemma_auto_spec_u64_to_from_le_bytes();
    lemma_auto_spec_u32_to_from_le_bytes();
    let encoded = manifest_numbers_bytes(manifest);
    assert(encoded.len() == 35);
    let prefix = bytes.subrange(0, 35);
    assert(prefix == encoded);
    assert(bytes.subrange(0, 4) =~= encoded.subrange(0, 4));
    assert(bytes.subrange(4, 8) =~= encoded.subrange(4, 8));
    assert(bytes.subrange(8, 16) =~= encoded.subrange(8, 16));
    assert(bytes.subrange(16, 24) =~= encoded.subrange(16, 24));
    assert(bytes.subrange(24, 32) =~= encoded.subrange(24, 32));
    assert(bytes[32] == encoded[32]);
    assert(bytes[33] == encoded[33]);
    assert(bytes[34] == encoded[34]);
}

/// Reads the fixed-width tail of a manifest whose strings and version were
/// already read, and returns the whole manifest.
#[verifier::rlimit(40)]
fn read_manifest_numbers(
    cursor: &mut ByteCursor,
    magic: String,
    format_version: u32,
    file_extension: String,
    Ghost(target): Ghost<Option<FSEArchiveManifest>>,
) -> (result: Result<FSEArchiveManifest, FSEArchiveCodecError>)
    requires
        old(cursor).wf(),
        target matches Some(t) ==> starts_with(old(cursor).rest(), manifest_numbers_bytes(t)),
    ensures
        final(cursor).wf(),
        final(cursor).bytes@ == old(cursor).bytes@,
        result matches Ok(read) ==> {
            &&& read.magic == magic
            &&& read.format_version == format_version
            &&& read.file_extension == file_extension
            &&& old(cursor).rest() == manifest_numbers_bytes(read) + final(cursor).rest()
        },
        target matches Some(t) ==> (result matches Ok(read) && read.scalar_size_bytes
            == t.scalar_size_bytes && read.dimensions == t.dimensions && read.record_count
            == t.record_count && read.node_count == t.node_count && read.root_node_id
            == t.root_node_id && read.sections == t.sections),
{
    let ghost r0 = cursor.rest();
    let ghost has_target = target is Some;
    let ghost t = match target {
        Some(t) => t,
        None => arbitrary(),
    };
    proof {
        lemma_auto_spec_u64_to_from_le_bytes();
        lemma_auto_spec_u32_to_from_le_bytes();
        if has_target {
            lemma_numbers_layout(t, r0);
        }
    }
    let scalar_size_bytes = match cursor.read_u32() {
        Ok(value) => value,
        Err(error) => return Err(lift(error, "manifest.scalar_size_bytes")),
    };
    let ghost r1 = cursor.rest();
    assert(r0 =~= spec_u32_to_le_bytes(scalar_size_bytes) + r1);
    assert(has_target ==> r1.subrange(0, 4) =~= r0.subrange(4, 8));
    let dimensions = match cursor.read_u32() {
        Ok(value) => value,
        Err(error) => return Err(lift(error, "manifest.dimensions")),
    };
    let ghost r2 = cursor.rest();
    assert(r1 =~= spec_u32_to_le_bytes(dimensions) + r2);
    assert(has_target ==> r2.subrange(0, 8) =~= r0.subrange(8, 16));
    let record_count = match cursor.read_u64() {
        Ok(value) => value,
        Err(error) => return Err(lift(error, "manifest.record_count")),
    };
    let ghost r3 = cursor.rest();
    assert(r2 =~= spec_u64_to_le_bytes(record_count) + r3);
    assert(has_target ==> r3.subrange(0, 8) =~= r0.subrange(16, 24));
    let node_count = match cursor.read_u64() {
        Ok(value) => value,
        Err(error) => return Err(lift(error, "manifest.node_count")),
    };
    let ghost r4 = cursor.rest();
    assert(r3 =~= spec_u64_to_le_bytes(node_count) + r4);
    assert(has_target ==> r4.subrange(0, 8) =~= r0.subrange(24, 32));
    let root_node_id = match cursor.read_u64() {
        Ok(value) => value,
        Err(error) => return Err(lift(error, "manifest.root_node_id")),
    };
    let ghost r5 = cursor.rest();
    assert(r4 =~= spec_u64_to_le_bytes(root_node_id) + r5);
    assert(has_target ==> r5.len() >= 3 && r5[0] == r0[32] && r5[1] == r0[33] && r5[2] == r0[34]);
    let dataset_metadata = match read_bool(cursor, "manifest.sections.dataset_metadata") {
        Ok(flag) => flag,
        Err(error) => return Err(error),
    };
    let ghost r6 = cursor.rest();
    let schema_metadata = match read_bool(cursor, "manifest.sections.schema_metadata") {
        Ok(flag) => flag,
        Err(error) => return Err(error),
    };
    let ghost r7 = cursor.rest();
    let encoder_metadata = match read_bool(cursor, "manifest.sections.encoder_metadata") {
        Ok(flag) => flag,
        Err(error) => return Err(error),
    };
    let manifest = FSEArchiveManifest {
        magic,
        format_version,
        file_extension,
        scalar_size_bytes,
        dimensions,
        record_count,
        node_count,
        root_node_id,
        sections: FSEArchiveSections { dataset_metadata, schema_metadata, encoder_metadata },
    };
    assert(r0 =~= manifest_numbers_bytes(manifest) + cursor.rest());
    Ok(manifest)
}

/// Two length-prefixed strings at the start of the same bytes are the same string.
pub(crate) proof fn lemma_string_field_unique(bytes: Seq<u8>, left: Seq<char>, right: Seq<char>)
    requires
        bytes.len() <= u64::MAX,
        starts_with(bytes, string_field_bytes(left)),
        starts_with(bytes, string_field_bytes(right)),
    ensures
        left == right,
{
    lemma_auto_spec_u64_to_from_le_bytes();
    let left_bytes = encode_utf8(left);
    let right_bytes = encode_utf8(right);
    let left_field = string_field_bytes(left);
    let right_field = string_field_bytes(right);
    assert(bytes.subrange(0, 8) =~= left_field.subrange(0, 8));
    assert(bytes.subrange(0, 8) =~= right_field.subrange(0, 8));
    assert(left_field.subrange(0, 8) =~= spec_u64_to_le_bytes(left_bytes.len() as u64));
    assert(right_field.subrange(0, 8) =~= spec_u64_to_le_bytes(right_bytes.len() as u64));
    assert(left_bytes.len() == right_bytes.len());
    let length = left_bytes.len() as int;
    assert(bytes.subrange(8, 8 + length) =~= left_field.subrange(8, 8 + length));
    assert(bytes.subrange(8, 8 + length) =~= right_field.subrange(8, 8 + length));
    assert(left_field.subrange(8, 8 + length) =~= left_bytes);
    assert(right_field.subrange(8, 8 + length) =~= right_bytes);
    assert(decode_utf8(left_bytes) == left);
    assert(decode_utf8(right_bytes) == right);
}

/// Two manifests encoded at the start of the same bytes hold the same strings,
/// numbers and flags.
proof fn lemma_manifest_prefix_unique(bytes: Seq<u8>, left: FSEArchiveManifest, right: FSEArchiveManifest)
    requires
        bytes.len() <= u64::MAX,
        starts_with(bytes, manifest_bytes(left)),
        starts_with(bytes, manifest_bytes(right)),
    ensures
        manifest_matches(left, right),
        manifest_bytes(left) == manifest_bytes(right),
{
    lemma_auto_spec_u64_to_from_le_bytes();
    lemma_auto_spec_u32_to_from_le_bytes();
    let left_magic = string_field_bytes(left.magic@);
    let right_magic = string_field_bytes(right.magic@);
    let left_after_magic = spec_u32_to_le_bytes(left.format_version) + (string_field_bytes(
        left.file_extension@,
    ) + manifest_numbers_bytes(left));
    let right_after_magic = spec_u32_to_le_bytes(right.format_version) + (string_field_bytes(
        right.file_extension@,
    ) + manifest_numbers_bytes(right));
    lemma_starts_with_split(bytes, left_magic, left_after_magic);
    lemma_starts_with_split(bytes, right_magic, right_after_magic);
    lemma_string_field_unique(bytes, left.magic@, right.magic@);
    let tail = bytes.subrange(left_magic.len() as int, bytes.len() as int);
    let left_after_version = string_field_bytes(left.file_extension@) + manifest_numbers_bytes(left);
    let right_after_version = string_field_bytes(right.file_extension@) + manifest_numbers_bytes(
        right,
    );
    lemma_starts_with_split(tail, spec_u32_to_le_bytes(left.format_version), left_after_version);
    lemma_starts_with_split(tail, spec_u32_to_le_bytes(right.format_version), right_after_version);
    assert(left.format_version == right.format_version);
    let tail2 = tail.subrange(4, tail.len() as int);
    lemma_starts_with_split(tail2, string_field_bytes(left.file_extension@), manifest_numbers_bytes(left));
    lemma_starts_with_split(
        tail2,
        string_field_bytes(right.file_extension@),
        manifest_numbers_bytes(right),
    );
    lemma_string_field_unique(tail2, left.file_extension@, right.file_extension@);
    let tail3 = tail2.subrange(
        string_field_bytes(left.file_extension@).len() as int,
        tail2.len() as int,
    );
    lemma_numbers_layout(left, tail3);
    lemma_numbers_layout(right, tail3);
    assert(left.sections.dataset_metadata == right.sections.dataset_metadata);
    assert(left.sections.schema_metadata == right.sections.schema_metadata);
    assert(left.sections.encoder_metadata == right.sections.encoder_metadata);
    assert(manifest_numbers_bytes(left) =~= manifest_numbers_bytes(right));
}

/// Reads a manifest. The bytes read are the encoding of the manifest returned.
/// Reading the bytes that `write_manifest` appended succeeds and gives back a
/// manifest with the same strings, numbers and flags, leaving the cursor just
/// after them. The manifest is not validated here.
pub fn read_manifest(cursor: &mut ByteCursor) -> (result: Result<FSEArchiveManifest, FSEArchiveCodecError>)
    requires
        old(cursor).wf(),
    ensures
        final(cursor).wf(),
        final(cursor).bytes@ == old(cursor).bytes@,
        result matches Ok(read) ==> old(cursor).rest() == manifest_bytes(read) + final(cursor).rest(),
        forall|manifest: FSEArchiveManifest|
            starts_with(old(cursor).rest(), #[trigger] manifest_bytes(manifest)) ==> (result matches Ok(
                read,
            ) && manifest_matches(read, manifest) && final(cursor).rest() == old(cursor).rest().subrange(
                manifest_bytes(manifest).len() as int,
                old(cursor).rest().len() as int,
            )),
{
    let ghost start = cursor.rest();
    let ghost has_target = exists|manifest: FSEArchiveManifest|
        starts_with(start, #[trigger] manifest_bytes(manifest));
    let ghost t: FSEArchiveManifest = if has_target {
        choose|manifest: FSEArchiveManifest| starts_with(start, #[trigger] manifest_bytes(manifest))
    } else {
        arbitrary()
    };
    let ghost after_magic = spec_u32_to_le_bytes(t.format_version) + (string_field_bytes(
        t.file_extension@,
    ) + manifest_numbers_bytes(t));
    let ghost after_version = string_field_bytes(t.file_extension@) + manifest_numbers_bytes(t);
    proof {
        if has_target {
            lemma_starts_with_split(start, string_field_bytes(t.magic@), after_magic);
        }
    }
    let magic = match read_archive_text(
        cursor,
        "manifest.magic",
        Ghost(if has_target { Some(t.magic@) } else { None }),
    ) {
        Ok(text) => text,
        Err(error) => return Err(error),
    };
    let ghost r1 = cursor.rest();
    proof {
        lemma_auto_spec_u32_to_from_le_bytes();
        if has_target {
            assert(r1 =~= start.subrange(string_field_bytes(t.magic@).len() as int, start.len() as int));
            lemma_starts_with_split(r1, spec_u32_to_le_bytes(t.format_version), after_version);
            assert(r1.subrange(0, 4) =~= spec_u32_to_le_bytes(t.format_version));
        }
    }
    let format_version = match cursor.read_u32() {
        Ok(value) => value,
        Err(error) => return Err(lift(error, "manifest.format_version")),
    };
    let ghost r2 = cursor.rest();
    assert(r1 =~= spec_u32_to_le_bytes(format_version) + r2);
    proof {
        if has_target {
            assert(r2 =~= r1.subrange(4, r1.len() as int));
            lemma_starts_with_split(r2, string_field_bytes(t.file_extension@), manifest_numbers_bytes(t));
        }
    }
    let file_extension = match read_archive_text(
        cursor,
        "manifest.file_extension",
        Ghost(if has_target { Some(t.file_extension@) } else { None }),
    ) {
        Ok(text) => text,
        Err(error) => return Err(error),
    };
    let ghost r3 = cursor.rest();
    proof {
        if has_target {
            assert(r3 =~= r2.subrange(
                string_field_bytes(t.file_extension@).len() as int,
                r2.len() as int,
            ));
        }
    }
    let manifest = match read_manifest_numbers(
        cursor,
        magic,
        format_version,
        file_extension,
        Ghost(if has_target { Some(t) } else { None }),
    ) {
        Ok(manifest) => manifest,
        Err(error) => return Err(error),
    };
    proof {
        assert(start =~= manifest_bytes(manifest) + cursor.rest());
        assert forall|other: FSEArchiveManifest|
            starts_with(start, #[trigger] manifest_bytes(other)) implies manifest_matches(manifest, other)
            && cursor.rest() == start.subrange(manifest_bytes(other).len() as int, start.len() as int) by {
            assert(start.subrange(0, manifest_bytes(manifest).len() as int) =~= manifest_bytes(manifest));
            lemma_manifest_prefix_unique(start, manifest, other);
            assert(cursor.rest() =~= start.subrange(manifest_bytes(other).len() as int, start.len() as int));
        }
    }
    Ok(manifest)
}

} // verus!
