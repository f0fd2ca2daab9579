use polymesh_extension::codec::{
    compact_failure, decode_compact, decode_items, decode_vec, encode_items, encode_vec,
    vec_is_encodable, Codec, Compact, DecodeError,
};

fn encoded<T: Codec>(value: &T) -> Vec<u8> {
    assert!(value.is_encodable());
    let mut out = Vec::new();
    value.encode_to(&mut out);
    out
}

fn compact(n: u32) -> Vec<u8> {
    encoded(&Compact(n))
}

#[test]
fn u32_is_four_bytes_least_significant_first() {
    assert_eq!(encoded(&0x0102_0304u32), vec![4u8, 3, 2, 1]);
    assert_eq!(encoded(&0u32), vec![0u8; 4]);
    assert_eq!(encoded(&u32::MAX), vec![0xffu8; 4]);
}

#[test]
fn u64_is_eight_bytes_least_significant_first() {
    assert_eq!(encoded(&0x0102_0304_0506_0708u64), vec![8u8, 7, 6, 5, 4, 3, 2, 1]);
    assert_eq!(encoded(&1u64), vec![1u8, 0, 0, 0, 0, 0, 0, 0]);
}

#[test]
fn u128_is_sixteen_bytes_least_significant_first() {
    let mut expected = vec![0u8; 16];
    expected[0] = 0x40;
    expected[1] = 0x42;
    expected[2] = 0x0f;
    assert_eq!(encoded(&1_000_000u128), expected);
    assert_eq!(encoded(&u128::MAX), vec![0xffu8; 16]);
}

#[test]
fn u8_is_itself() {
    assert_eq!(encoded(&0xabu8), vec![0xabu8]);
}

#[test]
fn bool_is_one_byte() {
    assert_eq!(encoded(&true), vec![1u8]);
    assert_eq!(encoded(&false), vec![0u8]);
}

#[test]
fn integers_read_back() {
    let bytes = [1u8, 2, 3, 4, 5, 6, 7, 8, 9, 10, 11, 12, 13, 14, 15, 16, 17];
    let (a, rest) = u32::decode(&bytes).unwrap();
    assert_eq!(a, 0x0403_0201);
    assert_eq!(rest, &bytes[4..]);
    let (b, rest) = u64::decode(&bytes).unwrap();
    assert_eq!(b, 0x0807_0605_0403_0201);
    assert_eq!(rest, &bytes[8..]);
    let (c, rest) = u128::decode(&bytes).unwrap();
    assert_eq!(c, 0x100f_0e0d_0c0b_0a09_0807_0605_0403_0201);
    assert_eq!(rest, &[17u8][..]);
    let (d, rest) = u8::decode(&bytes).unwrap();
    assert_eq!(d, 1);
    assert_eq!(rest, &bytes[1..]);
}

#[test]
fn integers_need_all_their_bytes() {
    assert_eq!(u32::decode(&[1, 2, 3]), Err(DecodeError::UnexpectedEnd));
    assert_eq!(u64::decode(&[1, 2, 3, 4, 5, 6, 7]), Err(DecodeError::UnexpectedEnd));
    assert_eq!(u128::decode(&[0u8; 15]), Err(DecodeError::UnexpectedEnd));
    assert_eq!(u8::decode(&[]), Err(DecodeError::UnexpectedEnd));
    assert_eq!(u32::decode(&[]), Err(DecodeError::UnexpectedEnd));
}

#[test]
fn bool_reads_only_zero_and_one() {
    assert_eq!(bool::decode(&[0, 9]), Ok((false, &[9u8][..])));
    assert_eq!(bool::decode(&[1]), Ok((true, &[][..])));
    assert_eq!(bool::decode(&[2]), Err(DecodeError::Invalid));
    assert_eq!(bool::decode(&[]), Err(DecodeError::UnexpectedEnd));
}

#[test]
fn compact_one_byte_form() {
    assert_eq!(compact(0), vec![0u8]);
    assert_eq!(compact(1), vec![4u8]);
    assert_eq!(compact(3), vec![12u8]);
    assert_eq!(compact(63), vec![252u8]);
}

#[test]
fn compact_two_byte_form() {
    assert_eq!(compact(64), vec![0x01u8, 0x01]);
    assert_eq!(compact(16383), vec![0xfdu8, 0xff]);
}

#[test]
fn compact_four_byte_form() {
    assert_eq!(compact(16384), vec![0x02u8, 0x00, 0x01, 0x00]);
    assert_eq!(compact((1 << 30) - 1), vec![0xfeu8, 0xff, 0xff, 0xff]);
}

#[test]
fn compact_five_byte_form() {
    assert_eq!(compact(1 << 30), vec![0x03u8, 0x00, 0x00, 0x00, 0x40]);
    assert_eq!(compact(u32::MAX), vec![0x03u8, 0xff, 0xff, 0xff, 0xff]);
}

#[test]
fn compact_reads_back_at_every_boundary() {
    for n in [0u32, 1, 63, 64, 16383, 16384, (1 << 30) - 1, 1 << 30, u32::MAX] {
        let mut bytes = compact(n);
        bytes.push(0xaa);
        let (value, rest) = Compact::decode(&bytes).unwrap();
        assert_eq!(value, Compact(n));
        assert_eq!(rest, &[0xaau8][..]);
    }
}

#[test]
fn compact_refuses_a_longer_form_than_needed() {
    // 0 in the two-byte form, 1 in the four-byte form, 1 in the five-byte form.
    assert_eq!(Compact::decode(&[0x01, 0x00]), Err(DecodeError::Invalid));
    assert_eq!(Compact::decode(&[0x06, 0x00, 0x00, 0x00]), Err(DecodeError::Invalid));
    assert_eq!(Compact::decode(&[0x03, 0x01, 0x00, 0x00, 0x00]), Err(DecodeError::Invalid));
}

#[test]
fn compact_refuses_a_count_beyond_32_bits() {
    assert_eq!(Compact::decode(&[0x07, 0, 0, 0, 0, 1]), Err(DecodeError::Invalid));
    assert_eq!(Compact::decode(&[0x07]), Err(DecodeError::Invalid));
}

#[test]
fn compact_refuses_a_cut_indicator() {
    assert_eq!(Compact::decode(&[]), Err(DecodeError::UnexpectedEnd));
    assert_eq!(Compact::decode(&[0x01]), Err(DecodeError::UnexpectedEnd));
    assert_eq!(Compact::decode(&[0x02, 0x00, 0x01]), Err(DecodeError::UnexpectedEnd));
    assert_eq!(Compact::decode(&[0x03, 0x00, 0x00, 0x00]), Err(DecodeError::UnexpectedEnd));
}

#[test]
fn byte_vector_has_its_length_in_front() {
    assert_eq!(encoded(&b"Foo".to_vec()), vec![12u8, b'F', b'o', b'o']);
    let long = vec![7u8; 64];
    let bytes = encoded(&long);
    assert_eq!(&bytes[..2], &[0x01u8, 0x01][..]);
    assert_eq!(&bytes[2..], &long[..]);
}

#[test]
fn empty_vector_is_one_zero_byte() {
    assert_eq!(encoded(&Vec::<u8>::new()), vec![0u8]);
    let (value, rest) = Vec::<u8>::decode(&[0]).unwrap();
    assert!(value.is_empty());
    assert!(rest.is_empty());
}

#[test]
fn absent_option_is_one_zero_byte() {
    assert_eq!(encoded(&Option::<Vec<u8>>::None), vec![0u8]);
    assert_eq!(encoded(&Option::<u32>::None), vec![0u8]);
    let (value, rest) = Option::<Vec<u8>>::decode(&[0]).unwrap();
    assert_eq!(value, None);
    assert!(rest.is_empty());
}

#[test]
fn present_option_is_one_then_the_value() {
    assert_eq!(encoded(&Some(7u32)), vec![1u8, 7, 0, 0, 0]);
    assert_eq!(encoded(&Some(b"ab".to_vec())), vec![1u8, 8, b'a', b'b']);
    let (value, rest) = Option::<u32>::decode(&[1, 7, 0, 0, 0, 5]).unwrap();
    assert_eq!(value, Some(7));
    assert_eq!(rest, &[5u8][..]);
}

#[test]
fn option_refuses_other_tags_and_cut_values() {
    assert_eq!(Option::<u32>::decode(&[2, 0, 0, 0, 0]), Err(DecodeError::Invalid));
    assert_eq!(Option::<u32>::decode(&[1, 0, 0, 0]), Err(DecodeError::UnexpectedEnd));
    assert_eq!(Option::<u32>::decode(&[]), Err(DecodeError::UnexpectedEnd));
    assert_eq!(Option::<bool>::decode(&[1, 2]), Err(DecodeError::Invalid));
}

#[test]
fn byte_vector_reads_back() {
    let (value, rest) = Vec::<u8>::decode(&[8, 1, 2, 3]).unwrap();
    assert_eq!(value, vec![1u8, 2]);
    assert_eq!(rest, &[3u8][..]);
}

#[test]
fn byte_vector_refuses_a_cut_body() {
    assert_eq!(Vec::<u8>::decode(&[8, 1]), Err(DecodeError::UnexpectedEnd));
    assert_eq!(Vec::<u8>::decode(&[]), Err(DecodeError::UnexpectedEnd));
    assert_eq!(Vec::<u8>::decode(&[0x01, 0x00, 7]), Err(DecodeError::Invalid));
    assert_eq!(
        Vec::<u8>::decode(&[0x03, 0xff, 0xff, 0xff, 0xff, 1, 2, 3]),
        Err(DecodeError::UnexpectedEnd)
    );
}

#[test]
fn array_is_its_bytes_without_a_length() {
    let value = *b"ABCDEFGHIJKL";
    assert_eq!(encoded(&value), b"ABCDEFGHIJKL".to_vec());
    let (back, rest) = <[u8; 12]>::decode(b"ABCDEFGHIJKLM").unwrap();
    assert_eq!(back, value);
    assert_eq!(rest, b"M");
    assert_eq!(<[u8; 12]>::decode(b"ABCDEFGHIJK"), Err(DecodeError::UnexpectedEnd));
    let (nothing, rest) = <[u8; 0]>::decode(b"x").unwrap();
    assert_eq!(nothing, []);
    assert_eq!(rest, b"x");
}

#[test]
fn items_follow_each_other_without_a_count() {
    let items = [1u32, 2];
    let mut out = vec![0xeeu8];
    encode_items(&items, &mut out);
    assert_eq!(out, vec![0xeeu8, 1, 0, 0, 0, 2, 0, 0, 0]);
    let (back, rest) = decode_items::<u32>(&out[1..], 2).unwrap();
    assert_eq!(back, vec![1u32, 2]);
    assert!(rest.is_empty());
    let (one, rest) = decode_items::<u32>(&out[1..], 1).unwrap();
    assert_eq!(one, vec![1u32]);
    assert_eq!(rest, &[2u8, 0, 0, 0][..]);
    assert_eq!(decode_items::<u32>(&out[1..], 3), Err(DecodeError::UnexpectedEnd));
    assert_eq!(decode_items::<bool>(&[1, 0, 2, 1], 4), Err(DecodeError::Invalid));
    let (none, rest) = decode_items::<u32>(&[9], 0).unwrap();
    assert!(none.is_empty());
    assert_eq!(rest, &[9u8][..]);
}

#[test]
fn vector_of_items_has_its_count_in_front() {
    let items = [true, false, true];
    let mut out = Vec::new();
    encode_vec(&items, &mut out);
    assert_eq!(out, vec![12u8, 1, 0, 1]);
    let (back, rest) = decode_vec::<bool>(&out).unwrap();
    assert_eq!(back, vec![true, false, true]);
    assert!(rest.is_empty());
    assert_eq!(decode_vec::<bool>(&[12, 1, 0]), Err(DecodeError::UnexpectedEnd));
    assert_eq!(decode_vec::<bool>(&[4, 2]), Err(DecodeError::Invalid));
    assert_eq!(decode_vec::<bool>(&[]), Err(DecodeError::UnexpectedEnd));
    assert_eq!(decode_vec::<bool>(&[0x01, 0x00, 1]), Err(DecodeError::Invalid));
    let (empty, rest) = decode_vec::<bool>(&[0, 1]).unwrap();
    assert!(empty.is_empty());
    assert_eq!(rest, &[1u8][..]);
}

#[test]
fn encode_appends_and_keeps_what_was_there() {
    let mut out = vec![1u8, 2, 3];
    7u32.encode_to(&mut out);
    true.encode_to(&mut out);
    Compact(64).encode_to(&mut out);
    b"xy".to_vec().encode_to(&mut out);
    assert_eq!(out, vec![1u8, 2, 3, 7, 0, 0, 0, 1, 0x01, 0x01, 8, b'x', b'y']);
}

#[test]
fn compact_is_read_alone() {
    assert_eq!(decode_compact(&[0xfd, 0xff, 9]), Ok((16383, &[9u8][..])));
    assert_eq!(decode_compact(&[0x00]), Ok((0, &[][..])));
    assert_eq!(decode_compact(&[0xfd]), Err(DecodeError::UnexpectedEnd));
    assert_eq!(decode_compact(&[0xfd, 0x00]), Err(DecodeError::Invalid));
}

#[test]
fn compact_failure_tells_a_cut_from_a_wrong_form() {
    assert_eq!(compact_failure(&[]), DecodeError::UnexpectedEnd);
    assert_eq!(compact_failure(&[0x01]), DecodeError::UnexpectedEnd);
    assert_eq!(compact_failure(&[0x02, 0, 0]), DecodeError::UnexpectedEnd);
    assert_eq!(compact_failure(&[0x03, 0, 0, 0]), DecodeError::UnexpectedEnd);
    assert_eq!(compact_failure(&[0x01, 0x00]), DecodeError::Invalid);
    assert_eq!(compact_failure(&[0x02, 0, 0, 0]), DecodeError::Invalid);
    assert_eq!(compact_failure(&[0x03, 0, 0, 0, 0]), DecodeError::Invalid);
    assert_eq!(compact_failure(&[0x0b]), DecodeError::Invalid);
}

#[test]
fn vector_with_more_items_than_the_indicator_counts_is_not_encodable() {
    // Items without bytes take no room, so 2^32 of them can be had.
    let most = vec![[0u8; 0]; u32::MAX as usize];
    let too_many = vec![[0u8; 0]; 1usize << 32];
    assert!(vec_is_encodable(&most[..3]));
    assert!(!vec_is_encodable(&too_many));
    assert_eq!(most.len(), 0xffff_ffff);
}
