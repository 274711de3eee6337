use fse_rust::cursor::ByteCursor;
use fse_rust::persistence::archive_codec::FSEArchiveCodecError;
use fse_rust::persistence::manifest::{FSEArchiveManifest, FSEArchiveSections};
use fse_rust::persistence::manifest_codec::{read_manifest, write_manifest};

fn sample_manifest() -> FSEArchiveManifest {
    FSEArchiveManifest::try_new(3, 10, 4, 2, FSEArchiveSections::typed()).expect("valid manifest")
}

#[test]
fn manifest_bytes_have_the_documented_layout() {
    let manifest = sample_manifest();
    let mut bytes = Vec::new();
    write_manifest(&mut bytes, &manifest);
    // 8 + 11 (magic) + 4 + 8 + 4 (".fse") + 4 + 4 + 8 + 8 + 8 + 3
    assert_eq!(bytes.len(), 70);
    assert_eq!(&bytes[0..8], &11u64.to_le_bytes());
    assert_eq!(&bytes[8..19], b"FSE_ARCHIVE");
    assert_eq!(&bytes[19..23], &1u32.to_le_bytes());
    assert_eq!(&bytes[23..31], &4u64.to_le_bytes());
    assert_eq!(&bytes[31..35], b".fse");
    assert_eq!(&bytes[35..39], &4u32.to_le_bytes());
    assert_eq!(&bytes[39..43], &3u32.to_le_bytes());
    assert_eq!(&bytes[43..51], &10u64.to_le_bytes());
    assert_eq!(&bytes[51..59], &4u64.to_le_bytes());
    assert_eq!(&bytes[59..67], &2u64.to_le_bytes());
    assert_eq!(&bytes[67..70], &[1u8, 1, 1]);
}

#[test]
fn manifest_round_trips_and_leaves_trailing_bytes() {
    let manifest = sample_manifest();
    let mut bytes = vec![0xAA];
    write_manifest(&mut bytes, &manifest);
    bytes.push(0x55);
    let mut cursor = ByteCursor::new(&bytes);
    cursor.offset = 1;
    let read = read_manifest(&mut cursor).expect("manifest reads back");
    assert_eq!(read, manifest);
    assert_eq!(cursor.offset, bytes.len() - 1);
}

#[test]
fn manifest_rejects_a_non_boolean_flag() {
    let manifest = sample_manifest();
    let mut bytes = Vec::new();
    write_manifest(&mut bytes, &manifest);
    let last = bytes.len() - 2;
    bytes[last] = 2;
    let mut cursor = ByteCursor::new(&bytes);
    assert_eq!(
        read_manifest(&mut cursor),
        Err(FSEArchiveCodecError::InvalidBoolean {
            field: "manifest.sections.schema_metadata",
            value: 2,
        })
    );
}

#[test]
fn manifest_reports_truncated_magic() {
    let bytes = 11u64.to_le_bytes().to_vec();
    let mut cursor = ByteCursor::new(&bytes);
    assert_eq!(
        read_manifest(&mut cursor),
        Err(FSEArchiveCodecError::UnexpectedEndOfArchive {
            field: "manifest.magic",
            needed: 11,
            remaining: 0,
        })
    );
}
