use textmode::bytes::{AsUSize, BytesError, PackToBytes, VecOps};

#[test]
fn strip_trailing_value_removes_the_whole_run() {
    let mut v = vec![1u8, 2, 0, 3, 3, 3];
    v.strip_trailing_value(3);
    assert_eq!(v, vec![1, 2, 0]);
}

#[test]
fn strip_trailing_value_keeps_inner_occurrences() {
    let mut v = vec![3u8, 1, 3, 2];
    v.strip_trailing_value(3);
    assert_eq!(v, vec![3, 1, 3, 2]);
}

#[test]
fn strip_trailing_value_can_empty_the_vector() {
    let mut v = vec![7u8; 5];
    v.strip_trailing_value(7);
    assert!(v.is_empty());
    v.strip_trailing_value(7);
    assert!(v.is_empty());
}

#[test]
fn strip_trailing_spaces_and_nulls() {
    let mut v = b"DEMO   ".to_vec();
    assert_eq!(v.strip_trailing_spaces(), &b"DEMO".to_vec());
    let mut w = b"IBM VGA\0\0\0".to_vec();
    assert_eq!(w.strip_trailing_nulls(), &b"IBM VGA".to_vec());
    let mut x = b"a \0".to_vec();
    x.strip_trailing_spaces();
    assert_eq!(x, b"a \0".to_vec());
}

#[test]
fn pad_with_value_fills_up_to_the_length() {
    let mut v = vec![1u8, 2];
    v.pad_with_value(5, 9);
    assert_eq!(v, vec![1, 2, 9, 9, 9]);
}

#[test]
fn pad_with_value_leaves_a_long_vector_alone() {
    let mut v = vec![1u8, 2, 3];
    v.pad_with_value(3, 9);
    assert_eq!(v, vec![1, 2, 3]);
    v.pad_with_value(2, 9);
    assert_eq!(v, vec![1, 2, 3]);
}

#[test]
fn pad_with_spaces_and_nulls() {
    let mut v = b"ab".to_vec();
    assert_eq!(v.pad_with_spaces(4), &b"ab  ".to_vec());
    let mut w = b"ab".to_vec();
    assert_eq!(w.pad_with_nulls(4), &b"ab\0\0".to_vec());
}

#[test]
fn padding_then_stripping_gives_the_field_back() {
    let mut v = b"a b".to_vec();
    v.pad_with_spaces(35);
    assert_eq!(v.len(), 35);
    v.strip_trailing_spaces();
    assert_eq!(v, b"a b".to_vec());
}

#[test]
fn write_to_slice_copies_to_the_front() {
    let mut slot = [0xffu8; 5];
    assert_eq!(vec![1u8, 2, 3].write_to_slice(&mut slot), Ok(()));
    assert_eq!(slot, [1, 2, 3, 0xff, 0xff]);
}

#[test]
fn write_to_slice_fills_an_exact_slot() {
    let mut slot = [0u8; 3];
    assert_eq!(vec![1u8, 2, 3].write_to_slice(&mut slot), Ok(()));
    assert_eq!(slot, [1, 2, 3]);
}

#[test]
fn write_to_slice_refuses_what_does_not_fit() {
    let mut slot = [7u8; 2];
    assert_eq!(vec![1u8, 2, 3].write_to_slice(&mut slot), Err(BytesError::TooLarge));
    assert_eq!(slot, [7, 7]);
}

#[test]
fn bytes_error_message() {
    assert_eq!(BytesError::TooLarge.to_string(), "Bytes too large");
}

#[test]
fn pack_to_bytes_is_little_endian() {
    let mut four = [0xffu8; 4];
    0x12345678usize.pack_to_bytes(&mut four);
    assert_eq!(four, [0x78, 0x56, 0x34, 0x12]);
    let mut two = [0xffu8; 2];
    640usize.pack_to_bytes(&mut two);
    assert_eq!(two, [0x80, 0x02]);
}

#[test]
fn pack_to_bytes_drops_what_does_not_fit() {
    let mut two = [0u8; 2];
    0x12345usize.pack_to_bytes(&mut two);
    assert_eq!(two, [0x45, 0x23]);
    let mut none: [u8; 0] = [];
    5usize.pack_to_bytes(&mut none);
}

#[test]
fn pack_to_bytes_fills_a_wide_slot_with_zeros() {
    let mut wide = [0xffu8; 12];
    1usize.pack_to_bytes(&mut wide);
    assert_eq!(wide, [1, 0, 0, 0, 0, 0, 0, 0, 0, 0, 0, 0]);
}

#[test]
fn as_usize_is_little_endian() {
    assert_eq!([0x78u8, 0x56, 0x34, 0x12].as_usize(), 0x12345678);
    assert_eq!([0x80u8, 0x02].as_usize(), 640);
    let empty: [u8; 0] = [];
    assert_eq!(empty.as_usize(), 0);
    assert_eq!([0xffu8, 0xff, 0xff, 0xff].as_usize(), 0xffff_ffff);
}

#[test]
fn as_usize_wraps_beyond_the_width_of_usize() {
    let mut long = vec![0u8; std::mem::size_of::<usize>()];
    long.push(1);
    assert_eq!(long.as_usize(), 0);
    long[0] = 5;
    assert_eq!(long.as_usize(), 5);
}

#[test]
fn unpacking_inverts_packing() {
    for n in [0usize, 1, 255, 256, 65535, 65536, 0xdead_beef] {
        let mut four = [0u8; 4];
        n.pack_to_bytes(&mut four);
        assert_eq!(four.as_usize(), n);
    }
}
