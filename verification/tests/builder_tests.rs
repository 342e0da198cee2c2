//! The prover-side packed register builder against direct computation.

use apk_proofs::piop::PackedRegisterBuilder;
use apk_proofs::domain::Domain;
use apk_proofs::bitmask::Bitmask;
use apk_proofs::fe::Fe;
use ark_bw6_761::Fr;
use ark_ff::{Field, One, PrimeField, Zero};
use ark_poly::{EvaluationDomain, Radix2EvaluationDomain};
use ark_serialize::CanonicalSerialize;

fn fe_of(f: Fr) -> Fe {
    let mut out: Vec<u8> = Vec::new();
    f.serialize_compressed(&mut out).unwrap();
    Fe { bytes: out }
}

fn builder(log: u32, bits: &[bool]) -> PackedRegisterBuilder {
    PackedRegisterBuilder::init(
        Domain::new(log).unwrap(),
        Bitmask::from_bits(bits),
        Vec::new(),
    )
}

#[test]
fn chunk_pattern_doubles_within_a_chunk() {
    let mut b = builder(2, &[true, false, true]);
    let r = fe_of(Fr::from(99u64));
    let (c, acc) = b.get_2nd_round_register_polynomials(&r);
    assert_eq!(c.len(), 4);
    // Within one chunk the pattern is the plain powers of two.
    for (j, expected) in [1u64, 2, 4, 8].iter().enumerate() {
        assert_eq!(c[j].bytes, fe_of(Fr::from(*expected)).bytes);
    }
    // The accumulator holds the running selected sums: bits 1,0,1.
    let expected_acc = [0u64, 1, 1, 5];
    for (j, expected) in expected_acc.iter().enumerate() {
        assert_eq!(acc[j].bytes, fe_of(Fr::from(*expected)).bytes);
    }
}

#[test]
fn chunk_pattern_restarts_at_chunk_boundaries() {
    // A domain of 512 rows spans two 256-bit chunks.
    let mut b = builder(9, &[true; 300]);
    let rv = Fr::from(123456u64);
    let (c, _) = b.get_2nd_round_register_polynomials(&fe_of(rv));
    assert_eq!(c.len(), 512);
    assert_eq!(c[0].bytes, fe_of(Fr::one()).bytes);
    assert_eq!(c[255].bytes, fe_of(Fr::from(2u64).pow([255u64])).bytes);
    // The new chunk restarts the doubling at the next power of the
    // challenge.
    assert_eq!(c[256].bytes, fe_of(rv).bytes);
    assert_eq!(c[257].bytes, fe_of(rv + rv).bytes);
}

#[test]
fn constraint_rows_vanish_off_the_wrap_row() {
    let bits = [true, true, false, true, false, true];
    let mut b = builder(3, &bits);
    let r = fe_of(Fr::from(777u64));
    b.get_2nd_round_register_polynomials(&r);
    let (acc_rows, c_rows) = b.compute_constraint_polynomials();
    let zero = fe_of(Fr::zero());
    assert_eq!(acc_rows.len(), 8);
    assert_eq!(c_rows.len(), 8);
    for j in 0..7 {
        assert_eq!(acc_rows[j].bytes, zero.bytes, "accumulator defect at row {}", j);
        assert_eq!(c_rows[j].bytes, zero.bytes, "pattern defect at row {}", j);
    }
    // The wrap row carries the (masked-off) defects.
    assert_ne!(acc_rows[7].bytes, zero.bytes);
    assert_ne!(c_rows[7].bytes, zero.bytes);
}

#[test]
fn register_evaluation_matches_direct_barycentric() {
    let bits = [true, false, true, true];
    let mut b = builder(2, &bits);
    let r = fe_of(Fr::from(31337u64));
    let (c, _) = b.get_2nd_round_register_polynomials(&r);
    let z = Fr::from(424243u64);
    let (c_at, _acc_at) = b.evaluate_register_polynomials(&fe_of(z)).unwrap();
    let reference = Radix2EvaluationDomain::<Fr>::new(4).unwrap();
    let van = z.pow([4u64]) - Fr::one();
    let mut sum = Fr::zero();
    let mut w = Fr::one();
    for cj in c.iter() {
        // Reconstruct each row value from its canonical bytes.
        let v = Fr::from_le_bytes_mod_order(&cj.bytes);
        sum += v * w * (z - w).inverse().unwrap();
        w *= reference.group_gen;
    }
    let expected = van * reference.size_inv * sum;
    assert_eq!(c_at.bytes, fe_of(expected).bytes);
    // A point on the domain is degenerate.
    assert!(b.evaluate_register_polynomials(&fe_of(Fr::one())).is_err());
}
