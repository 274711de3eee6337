use fse_rust::bytes::{write_u64, write_u64_vec};
use fse_rust::compact::{
    delta_var_u64s_len, var_u64_len, var_u64s_len, write_compact_u64_vec, write_delta_var_u64s,
    write_row_id_vec, write_var_u64, zig_zag_decode_i64, zig_zag_encode_i64,
};
use fse_rust::cursor::{ByteCursor, CursorError};

fn var_bytes(value: u64) -> Vec<u8> {
    let mut out = Vec::new();
    write_var_u64(&mut out, value);
    out
}

#[test]
fn var_u64_uses_seven_bits_per_byte() {
    assert_eq!(var_bytes(0), vec![0x00]);
    assert_eq!(var_bytes(127), vec![0x7f]);
    assert_eq!(var_bytes(128), vec![0x80, 0x01]);
    assert_eq!(var_bytes(300), vec![0xac, 0x02]);
    assert_eq!(var_bytes(2000), vec![0xd0, 0x0f]);
    assert_eq!(var_bytes(u64::MAX).len(), 10);
    assert_eq!(*var_bytes(u64::MAX).last().unwrap(), 0x01);
}

#[test]
fn var_u64_len_matches_written_bytes() {
    for value in [0u64, 1, 127, 128, 16_383, 16_384, 1 << 35, u64::MAX] {
        assert_eq!(var_u64_len(value), var_bytes(value).len());
    }
    assert_eq!(var_u64_len(u64::MAX), 10);
}

#[test]
fn var_u64_round_trips_through_cursor() {
    let values = [0u64, 5, 127, 128, 300, 1 << 40, u64::MAX];
    let mut bytes = Vec::new();
    for value in values {
        write_var_u64(&mut bytes, value);
    }
    let mut cursor = ByteCursor::new(&bytes);
    for value in values {
        assert_eq!(cursor.read_var_u64(), Ok(value));
    }
    assert_eq!(cursor.remaining(), 0);
}

#[test]
fn var_u64_reader_rejects_truncated_and_overlong_input() {
    let truncated = [0x80u8, 0x80];
    let mut cursor = ByteCursor::new(&truncated);
    assert_eq!(
        cursor.read_var_u64(),
        Err(CursorError::UnexpectedEnd { needed: 1, remaining: 0 })
    );
    let overlong = [0xffu8; 11];
    let mut cursor = ByteCursor::new(&overlong);
    assert_eq!(
        cursor.read_var_u64(),
        Err(CursorError::LengthOutOfRange { length: u64::MAX })
    );
}

#[test]
fn zig_zag_maps_small_magnitudes_to_small_numbers() {
    assert_eq!(zig_zag_encode_i64(0), 0);
    assert_eq!(zig_zag_encode_i64(-1), 1);
    assert_eq!(zig_zag_encode_i64(1), 2);
    assert_eq!(zig_zag_encode_i64(-2), 3);
    assert_eq!(zig_zag_encode_i64(i64::MAX), u64::MAX - 1);
    assert_eq!(zig_zag_encode_i64(i64::MIN), u64::MAX);
}

#[test]
fn zig_zag_round_trips() {
    for value in [0i64, 1, -1, 63, -64, 1_000_000, -1_000_000, i64::MAX, i64::MIN] {
        assert_eq!(zig_zag_decode_i64(zig_zag_encode_i64(value)), value);
    }
    for image in [0u64, 1, 2, 3, 1 << 63, u64::MAX] {
        assert_eq!(zig_zag_encode_i64(zig_zag_decode_i64(image)), image);
    }
}

#[test]
fn compact_u64_vec_prefers_varints_when_shorter() {
    let mut out = Vec::new();
    write_compact_u64_vec(&mut out, &[1, 2, 3]);
    let mut expected = vec![1u8];
    write_u64(&mut expected, 3);
    expected.extend_from_slice(&[1, 2, 3]);
    assert_eq!(out, expected);
}

#[test]
fn compact_u64_vec_falls_back_to_fixed_width() {
    let mut out = Vec::new();
    write_compact_u64_vec(&mut out, &[u64::MAX]);
    let mut expected = vec![0u8];
    write_u64_vec(&mut expected, &[u64::MAX]);
    assert_eq!(out, expected);
    assert_eq!(out.len(), 1 + 8 + 8);
}

#[test]
fn compact_u64_vec_of_nothing_is_fixed_width() {
    let mut out = Vec::new();
    write_compact_u64_vec(&mut out, &[]);
    assert_eq!(out, vec![0u8, 0, 0, 0, 0, 0, 0, 0, 0]);
}

#[test]
fn varint_list_length_is_the_sum_of_value_lengths() {
    assert_eq!(var_u64s_len(&[]), 0);
    assert_eq!(var_u64s_len(&[1, 300, u64::MAX]), 1 + 2 + 10);
}

#[test]
fn delta_list_length_and_bytes() {
    assert_eq!(delta_var_u64s_len(&[1000, 1001, 1002]), Some(4));
    assert_eq!(delta_var_u64s_len(&[1000, 999]), Some(3));
    assert_eq!(delta_var_u64s_len(&[1, u64::MAX]), None);
    let mut out = Vec::new();
    write_delta_var_u64s(&mut out, &[1000, 1001, 1002]);
    assert_eq!(out, vec![0xd0, 0x0f, 0x02, 0x02]);
    let mut out = Vec::new();
    write_delta_var_u64s(&mut out, &[1000, 999]);
    assert_eq!(out, vec![0xd0, 0x0f, 0x01]);
}

#[test]
fn row_id_list_uses_differences_when_strictly_shortest() {
    let mut out = Vec::new();
    write_row_id_vec(&mut out, &[1000, 1001, 1002]);
    let mut expected = vec![2u8];
    write_u64(&mut expected, 3);
    expected.extend_from_slice(&[0xd0, 0x0f, 0x02, 0x02]);
    assert_eq!(out, expected);
}

#[test]
fn row_id_list_keeps_varints_when_differences_are_not_shorter() {
    let mut out = Vec::new();
    write_row_id_vec(&mut out, &[100, 101, 102]);
    let mut expected = vec![1u8];
    write_u64(&mut expected, 3);
    expected.extend_from_slice(&[100, 101, 102]);
    assert_eq!(out, expected);
}

#[test]
fn row_id_list_never_uses_differences_beyond_i64() {
    let values = [u64::MAX - 2, u64::MAX - 1, u64::MAX];
    let mut out = Vec::new();
    write_row_id_vec(&mut out, &values);
    let mut expected = Vec::new();
    write_compact_u64_vec(&mut expected, &values);
    assert_eq!(out, expected);
    assert_eq!(out[0], 0);
}
