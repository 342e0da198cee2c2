//! The bitmask: bits, counting, encodings and chunk values.

use apk_proofs::bitmask::{Bitmask, bits_to_field, bitmask_chunks};
use apk_proofs::fe::Fe;
use apk_proofs::gen::{Uint512, Uint768, reverse_bytes};
use ark_bw6_761::Fr;
use ark_ff::Field;
use ark_serialize::CanonicalSerialize;
use rand::Rng;

fn fe_of(f: Fr) -> Fe {
    let mut out: Vec<u8> = Vec::new();
    f.serialize_compressed(&mut out).unwrap();
    Fe { bytes: out }
}

#[test]
fn bits_round_trip_and_count() {
    let bits = vec![true, false, false, true, true];
    let b = Bitmask::from_bits(&bits);
    assert_eq!(b.size(), 5);
    assert_eq!(b.to_bits(), bits);
    assert_eq!(b.count_ones(), 3);
    assert_eq!(Bitmask::from_bits(&[]).count_ones(), 0);
}

#[test]
fn transcript_encoding_is_length_then_bytes() {
    let b = Bitmask::from_bits(&[true, false, true]);
    let enc = b.to_transcript_bytes();
    assert_eq!(enc, vec![3, 0, 0, 0, 0, 0, 0, 0, 1, 0, 1]);
}

#[test]
fn bit_field_values_are_binary_numbers() {
    // 1011 read low bit first is 13.
    let b = Bitmask::from_bits(&[true, false, true, true]);
    let v = bits_to_field(&b, 0, 4);
    assert_eq!(v.bytes, fe_of(Fr::from(13u64)).bytes);
    let v = bits_to_field(&b, 1, 4);
    assert_eq!(v.bytes, fe_of(Fr::from(6u64)).bytes);
}

#[test]
fn chunks_split_at_256_bits() {
    // 300 bits with bit 299 set: the second chunk holds 2^43.
    let mut bits = vec![false; 300];
    bits[299] = true;
    bits[0] = true;
    let b = Bitmask::from_bits(&bits);
    let chunks = bitmask_chunks(&b);
    assert_eq!(chunks.len(), 2);
    assert_eq!(chunks[0].bytes, fe_of(Fr::from(1u64)).bytes);
    assert_eq!(chunks[1].bytes, fe_of(Fr::from(2u64).pow([43u64])).bytes);
}

#[test]
fn random_keyset_scenario() {
    // A keyset of random size below 256 with bitmask density about two
    // thirds: the counting witness equals the number of set bits.
    let mut rng = rand::thread_rng();
    let n: usize = rng.gen_range(1..=255);
    let bits: Vec<bool> = (0..n).map(|_| rng.gen_bool(2.0 / 3.0)).collect();
    let b = Bitmask::from_bits(&bits);
    let expected = bits.iter().filter(|&&x| x).count();
    assert_eq!(b.count_ones(), expected);
    assert_eq!(b.size(), n);
}

#[test]
fn limb_splitting() {
    let bytes: Vec<u8> = (0u8..48u8).collect();
    let u = Uint512::from(bytes.clone());
    assert_eq!(u.a, bytes[..16].to_vec());
    assert_eq!(u.b, bytes[16..].to_vec());
    let bytes96: Vec<u8> = (0u8..96u8).collect();
    let u = Uint768::from(bytes96.clone());
    assert_eq!(u.a, bytes96[..32].to_vec());
    assert_eq!(u.b, bytes96[32..64].to_vec());
    assert_eq!(u.c, bytes96[64..].to_vec());
}

#[test]
fn field_elements_split_big_endian() {
    let f = fe_of(Fr::from(1u64));
    let u = Uint512::from_fr(&f);
    assert_eq!(u.a, vec![0u8; 16]);
    let mut expected_low = vec![0u8; 32];
    expected_low[31] = 1;
    assert_eq!(u.b, expected_low);
    assert_eq!(reverse_bytes(&vec![1, 2, 3]), vec![3, 2, 1]);
}
