//! Field-element wrappers against arkworks directly.

use apk_proofs::fe::{Fe, fr_add, fr_sub, fr_mul, fr_inv, fr_from_u64, fr_from_u128,
    fr_from_16_bytes, fe_from_bytes, fe_eq, fe_zero, fe_one, u64_le_bytes, u32_le_bytes};
use ark_bw6_761::Fr;
use ark_ff::PrimeField;
use ark_serialize::CanonicalSerialize;
use ark_ff::BigInteger;
use ark_ff::Field;

fn fe_of(f: Fr) -> Fe {
    let mut out: Vec<u8> = Vec::new();
    f.serialize_compressed(&mut out).unwrap();
    Fe { bytes: out }
}

#[test]
fn add_sub_mul_match_arkworks() {
    let a = Fr::from(123456789u64);
    let b = Fr::from(987654321u64);
    let fa = fe_of(a);
    let fb = fe_of(b);
    assert_eq!(fr_add(&fa, &fb).bytes, fe_of(a + b).bytes);
    assert_eq!(fr_sub(&fa, &fb).bytes, fe_of(a - b).bytes);
    assert_eq!(fr_sub(&fb, &fa).bytes, fe_of(b - a).bytes);
    assert_eq!(fr_mul(&fa, &fb).bytes, fe_of(a * b).bytes);
}

#[test]
fn inverse_exists_exactly_for_nonzero() {
    let a = Fr::from(42u64);
    let fa = fe_of(a);
    let inv = fr_inv(&fa).unwrap();
    let prod = fr_mul(&inv, &fa);
    assert!(fe_eq(&prod, &fe_one()));
    let z = fe_zero();
    assert!(fr_inv(&z).is_none());
}

#[test]
fn small_integers_embed_exactly() {
    assert_eq!(fr_from_u64(7).bytes, fe_of(Fr::from(7u64)).bytes);
    assert_eq!(fr_from_u128(1u128 << 100).bytes, fe_of(Fr::from(1u128 << 100)).bytes);
    assert!(fe_eq(&fe_zero(), &fr_from_u64(0)));
    assert!(fe_eq(&fe_one(), &fr_from_u64(1)));
    assert!(!fe_eq(&fe_zero(), &fe_one()));
}

#[test]
fn sixteen_byte_challenge_reduction_matches_arkworks() {
    let bytes: Vec<u8> = (1u8..=16u8).collect();
    let ours = fr_from_16_bytes(&bytes);
    let theirs = Fr::from_random_bytes(&bytes).unwrap();
    assert_eq!(ours.bytes, fe_of(theirs).bytes);
}

#[test]
fn canonical_bytes_round_trip_and_noncanonical_rejected() {
    let a = Fr::from(55555u64);
    let fa = fe_of(a);
    let back = fe_from_bytes(&fa.bytes).unwrap();
    assert_eq!(back.bytes, fa.bytes);
    // The modulus itself is one past the largest canonical value.
    let modulus_bytes: Vec<u8> = Fr::MODULUS.to_bytes_le();
    assert_eq!(modulus_bytes.len(), 48);
    assert!(fe_from_bytes(&modulus_bytes).is_none());
}

#[test]
fn little_endian_words() {
    assert_eq!(u64_le_bytes(0x0102030405060708), vec![8, 7, 6, 5, 4, 3, 2, 1]);
    assert_eq!(u32_le_bytes(0x01020304), vec![4, 3, 2, 1]);
    assert_eq!(u64_le_bytes(0), vec![0; 8]);
}
