//! The evaluation domain and the Lagrange-side helpers against ark_poly.

use apk_proofs::domain::Domain;
use apk_proofs::utils::{vanishing_at, lagrange_evaluations, horner_field,
    barycentric_eval_binary_at};
use apk_proofs::bitmask::Bitmask;
use apk_proofs::fe::{Fe, fe_eq, fr_sub, fr_inv, fr_mul};
use ark_bw6_761::Fr;
use ark_ff::{Field, One, Zero};
use ark_poly::{EvaluationDomain, Radix2EvaluationDomain};
use ark_serialize::CanonicalSerialize;

fn fe_of(f: Fr) -> Fe {
    let mut out: Vec<u8> = Vec::new();
    f.serialize_compressed(&mut out).unwrap();
    Fe { bytes: out }
}

#[test]
fn domain_parameters_match_ark_poly() {
    let d = Domain::new(8).unwrap();
    let reference = Radix2EvaluationDomain::<Fr>::new(256).unwrap();
    assert_eq!(d.size, 256);
    assert_eq!(d.group_gen.bytes, fe_of(reference.group_gen).bytes);
    assert_eq!(d.group_gen_inv.bytes, fe_of(reference.group_gen_inv).bytes);
    assert_eq!(d.size_inv.bytes, fe_of(reference.size_inv).bytes);
}

#[test]
fn generator_has_exact_order() {
    // Construction already checks the order; cross-check against ark_poly.
    assert!(Domain::new(3).is_ok());
    let reference = Radix2EvaluationDomain::<Fr>::new(8).unwrap();
    let mut cur = Fr::one();
    for e in 1..8u64 {
        cur *= reference.group_gen;
        assert_ne!(cur, Fr::one(), "order smaller than the size at {}", e);
    }
    cur *= reference.group_gen;
    assert_eq!(cur, Fr::one());
}

#[test]
fn unsupported_sizes_are_rejected() {
    assert!(Domain::new(0).is_err());
    assert!(Domain::new(17).is_err());
    assert!(Domain::new(1).is_ok());
    assert!(Domain::new(16).is_ok());
}

#[test]
fn vanishing_polynomial_matches_direct_power() {
    let d = Domain::new(4).unwrap();
    let z = Fr::from(987654321u64);
    let ours = vanishing_at(&fe_of(z), &d);
    let theirs = z.pow([16u64]) - Fr::one();
    assert_eq!(ours.bytes, fe_of(theirs).bytes);
}

#[test]
fn lagrange_evaluations_match_direct_formulas() {
    let d = Domain::new(4).unwrap();
    let reference = Radix2EvaluationDomain::<Fr>::new(16).unwrap();
    let z = Fr::from(123123123u64);
    let ls = lagrange_evaluations(&fe_of(z), &d).unwrap();
    let n = 16u64;
    let van = z.pow([n]) - Fr::one();
    assert_eq!(ls.vanishing_polynomial.bytes, fe_of(van).bytes);
    assert_eq!(ls.zeta_omega.bytes, fe_of(z * reference.group_gen).bytes);
    let zmoi = (z - reference.group_gen_inv).inverse().unwrap();
    assert_eq!(ls.zeta_minus_omega_inv.bytes, fe_of(zmoi).bytes);
    let l_first = van * reference.size_inv * (z - Fr::one()).inverse().unwrap();
    assert_eq!(ls.l_first.bytes, fe_of(l_first).bytes);
    let l_last = van * reference.size_inv * reference.group_gen_inv * zmoi;
    assert_eq!(ls.l_last.bytes, fe_of(l_last).bytes);
}

#[test]
fn degenerate_evaluation_points_are_rejected() {
    let d = Domain::new(2).unwrap();
    let one = Fr::one();
    assert!(lagrange_evaluations(&fe_of(one), &d).is_err());
    let reference = Radix2EvaluationDomain::<Fr>::new(4).unwrap();
    assert!(lagrange_evaluations(&fe_of(reference.group_gen_inv), &d).is_err());
    assert!(lagrange_evaluations(&fe_of(Fr::from(7u64)), &d).is_ok());
}

#[test]
fn horner_matches_naive_evaluation() {
    let coeffs: Vec<Fe> = [3u64, 1, 4, 1, 5].iter().map(|&c| fe_of(Fr::from(c))).collect();
    let x = Fr::from(10u64);
    let ours = horner_field(&coeffs, &fe_of(x));
    let mut expected = Fr::zero();
    for &c in [3u64, 1, 4, 1, 5].iter().rev() {
        expected = expected * x + Fr::from(c);
    }
    assert_eq!(ours.bytes, fe_of(expected).bytes);
}

#[test]
fn barycentric_binary_evaluation_matches_direct_sum() {
    let d = Domain::new(3).unwrap();
    let reference = Radix2EvaluationDomain::<Fr>::new(8).unwrap();
    let bits = [true, false, true, true, false, false, true];
    let bitmask = Bitmask::from_bits(&bits);
    let z = Fr::from(424242u64);
    let ours = barycentric_eval_binary_at(&fe_of(z), &bitmask, &d).unwrap();
    let van = z.pow([8u64]) - Fr::one();
    let mut sum = Fr::zero();
    let mut w = Fr::one();
    for &b in bits.iter() {
        if b {
            sum += w * (z - w).inverse().unwrap();
        }
        w *= reference.group_gen;
    }
    let expected = van * reference.size_inv * sum;
    assert_eq!(ours.bytes, fe_of(expected).bytes);
    // A point on the domain at a set bit is degenerate.
    assert!(barycentric_eval_binary_at(&fe_of(Fr::one()), &bitmask, &d).is_err());
}

#[test]
fn field_inverse_checks() {
    let a = fe_of(Fr::from(5u64));
    let b = fe_of(Fr::from(5u64));
    let d = fr_sub(&a, &b);
    assert!(fr_inv(&d).is_none());
    let e = fr_sub(&a, &fe_of(Fr::from(3u64)));
    let inv = fr_inv(&e).unwrap();
    assert!(fe_eq(&fr_mul(&inv, &e), &fe_of(Fr::one())));
}
