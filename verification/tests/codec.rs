use xcontract_core::codec::{decode_bytes_at, encode_bytes_to, Codec};
use xcontract_core::types::AccountId;

#[test]
fn u32_encodes_little_endian() {
    assert_eq!(5u32.encode(), vec![5, 0, 0, 0]);
    assert_eq!(0x0102_0304u32.encode(), vec![4, 3, 2, 1]);
    assert_eq!(u32::decode(&vec![4, 3, 2, 1]), Some(0x0102_0304));
    // Trailing bytes are ignored, short input fails.
    assert_eq!(u32::decode(&vec![4, 3, 2, 1, 99]), Some(0x0102_0304));
    assert_eq!(u32::decode(&vec![4, 3, 2]), None);
}

#[test]
fn u64_round_trip() {
    for &v in &[0u64, 1, 0xffff, u64::MAX] {
        assert_eq!(u64::decode(&v.encode()), Some(v));
    }
    assert_eq!(7u64.encode().len(), 8);
}

#[test]
fn i32_two_complement_round_trip() {
    for &v in &[0i32, 5, -5, i32::MIN, i32::MAX] {
        assert_eq!(i32::decode(&v.encode()), Some(v));
    }
    assert_eq!((-1i32).encode(), vec![0xff, 0xff, 0xff, 0xff]);
}

#[test]
fn bool_codec_accepts_only_zero_and_one() {
    assert_eq!(true.encode(), vec![1]);
    assert_eq!(false.encode(), vec![0]);
    assert_eq!(bool::decode(&vec![0]), Some(false));
    assert_eq!(bool::decode(&vec![1]), Some(true));
    assert_eq!(bool::decode(&vec![2]), None);
    assert_eq!(bool::decode(&Vec::new()), None);
}

#[test]
fn byte_strings_carry_compact_lengths() {
    let mut out = Vec::new();
    encode_bytes_to(&b"PCX".to_vec(), &mut out);
    assert_eq!(out, vec![12, b'P', b'C', b'X']);

    let (decoded, end) = decode_bytes_at(&out, 0).expect("byte string decodes");
    assert_eq!(decoded, b"PCX".to_vec());
    assert_eq!(end, out.len());

    // A 100-byte string needs the two-byte length mode.
    let long = vec![7u8; 100];
    let mut out2 = Vec::new();
    encode_bytes_to(&long, &mut out2);
    assert_eq!(out2.len(), 102);
    assert_eq!(&out2[0..2], &[0x91, 0x01]);
    let (decoded2, end2) = decode_bytes_at(&out2, 0).expect("long byte string decodes");
    assert_eq!(decoded2, long);
    assert_eq!(end2, out2.len());
}

#[test]
fn byte_string_decode_rejects_truncation() {
    // Length 3 announced, two bytes present.
    assert!(decode_bytes_at(&vec![12u8, 1, 2], 0).is_none());
    // Non-canonical two-byte length for a small value.
    assert!(decode_bytes_at(&vec![0x05u8, 0x00], 0).is_none());
}

#[test]
fn account_id_codec_round_trip() {
    let id = AccountId::from_bytes(&[
        1, 2, 3, 4, 5, 6, 7, 8, 9, 10, 11, 12, 13, 14, 15, 16, 17, 18, 19, 20, 21, 22, 23,
        24, 25, 26, 27, 28, 29, 30, 31, 32,
    ]);
    let encoded = id.encode();
    assert_eq!(encoded.len(), 32);
    assert_eq!(encoded[0], 1);
    assert_eq!(encoded[31], 32);
    assert_eq!(AccountId::decode(&encoded), Some(id));
}

#[test]
fn hash_codec_round_trip() {
    let h = xcontract_core::types::Hash::from_bytes(&[0xabu8; 32]);
    let encoded = h.encode();
    assert_eq!(encoded, vec![0xabu8; 32]);
    assert_eq!(xcontract_core::types::Hash::decode(&encoded), Some(h));
    assert_eq!(xcontract_core::types::Hash::decode(&vec![0u8; 31]), None);
    assert_eq!(xcontract_core::types::Hash::default(), xcontract_core::types::Hash::from_bytes(&[0u8; 32]));
}
