use limbcheck::bignum::{decode, encode};
use limbcheck::limbs::{bytes_to_limbs, limbs_to_bytes};
use limbcheck::RunError;
use num_bigint::BigUint;

#[test]
fn encode_small_value_pads_to_width() {
    let v = BigUint::from(5u32);
    let limbs = encode(&v, 4).unwrap();
    assert_eq!(limbs, vec![5, 0, 0, 0]);
}

#[test]
fn encode_decode_round_trip_single_limb() {
    let v = BigUint::from(0xdeadbeefu32);
    let limbs = encode(&v, 1).unwrap();
    assert_eq!(limbs, vec![0xdeadbeef]);
    assert_eq!(decode(&limbs), v);
}

#[test]
fn encode_decode_round_trip_wide_value() {
    // v = 2^96 + 7: limb 3 empty, limb 0 and limb 3 exercised
    let v = BigUint::from(1u32) << 96 | BigUint::from(7u32);
    let limbs = encode(&v, 4).unwrap();
    assert_eq!(limbs, vec![7, 0, 0, 1]);
    assert_eq!(decode(&limbs), v);
}

#[test]
fn encode_decode_round_trip_max_value() {
    // the largest 128-bit value
    let v = (BigUint::from(1u32) << 128) - BigUint::from(1u32);
    let limbs = encode(&v, 4).unwrap();
    assert_eq!(limbs, vec![0xffffffff; 4]);
    assert_eq!(decode(&limbs), v);
}

#[test]
fn encode_rejects_value_over_width() {
    // 2^32 needs two limbs
    let v = BigUint::from(1u64 << 32);
    assert_eq!(encode(&v, 1), Err(RunError::EncodingOverflow));
    // exactly 2^128 does not fit four limbs
    let v = BigUint::from(1u32) << 128;
    assert_eq!(encode(&v, 4), Err(RunError::EncodingOverflow));
    // but fits five
    assert_eq!(encode(&v, 5).unwrap(), vec![0, 0, 0, 0, 1]);
}

#[test]
fn encode_zero_at_any_width() {
    let z = BigUint::from(0u32);
    assert_eq!(encode(&z, 0).unwrap(), Vec::<u32>::new());
    assert_eq!(encode(&z, 4).unwrap(), vec![0, 0, 0, 0]);
    assert_eq!(decode(&vec![0, 0, 0, 0]), z);
}

#[test]
fn limb_bytes_are_little_endian_without_padding() {
    let bytes = limbs_to_bytes(&vec![0x04030201, 0x08070605]);
    assert_eq!(bytes, vec![1, 2, 3, 4, 5, 6, 7, 8]);
}

#[test]
fn bytes_round_trip_through_limbs() {
    let limbs = vec![0xdeadbeef, 0, 0xffffffff, 42];
    let bytes = limbs_to_bytes(&limbs);
    assert_eq!(bytes.len(), 16);
    assert_eq!(bytes_to_limbs(&bytes), limbs);
}

#[test]
fn decode_matches_reference_arithmetic() {
    let limbs = vec![0x89abcdef, 0x01234567, 0, 0xf0000000];
    let expected = BigUint::from(0x89abcdefu32)
        + (BigUint::from(0x01234567u32) << 32)
        + (BigUint::from(0xf0000000u32) << 96);
    assert_eq!(decode(&limbs), expected);
}
