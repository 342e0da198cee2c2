//! The verifier pipeline end to end on synthetic material, and the
//! public-input types.

use apk_proofs::verification::Verifier;
use apk_proofs::kzg::RawKzgVk;
use apk_proofs::keyset::KeysetCommitment;
use apk_proofs::proofs::{Proof, Scheme};
use apk_proofs::public_input::{PublicInput, AccountablePublicInput, CountingPublicInput};
use apk_proofs::points::{AffG1, G1C, G2C, point_in_g1_complement, affine_add};
use apk_proofs::bitmask::Bitmask;
use apk_proofs::transcript::SimpleTranscript;
use apk_proofs::fe::Fe;
use apk_proofs::errors::ApkError;
use ark_bw6_761::{Fr, G1Affine, G2Affine};
use ark_ec::AffineRepr;
use ark_ff::PrimeField;
use ark_serialize::CanonicalSerialize;

fn fe_of(f: Fr) -> Fe {
    let mut out: Vec<u8> = Vec::new();
    f.serialize_compressed(&mut out).unwrap();
    Fe { bytes: out }
}

// The base field of BLS12-377 is the scalar field of BW6-761; its canonical
// encoding is byte-identical.
fn fe_of_fq(f: ark_bls12_377::Fq) -> Fe {
    let mut out: Vec<u8> = Vec::new();
    f.serialize_compressed(&mut out).unwrap();
    Fe { bytes: out }
}

fn g1c(scale: u64) -> G1C {
    let p: G1Affine = (G1Affine::generator() * Fr::from(scale)).into();
    let mut out: Vec<u8> = Vec::new();
    p.serialize_compressed(&mut out).unwrap();
    G1C { bytes: out }
}

fn g2c(scale: u64) -> G2C {
    let p: G2Affine = (G2Affine::generator() * Fr::from(scale)).into();
    let mut out: Vec<u8> = Vec::new();
    p.serialize_compressed(&mut out).unwrap();
    G2C { bytes: out }
}

fn sample_vk() -> RawKzgVk {
    RawKzgVk { g1: g1c(1), g2: g2c(1), tau_in_g2: g2c(123456789) }
}

fn sample_keyset(log: u32) -> KeysetCommitment {
    KeysetCommitment { pks_x_comm: g1c(3), pks_y_comm: g1c(5), log_domain_size: log }
}

fn sample_apk() -> AffG1 {
    // Coordinates of a BLS12-377 point live in the scalar field of BW6-761.
    let p = ark_bls12_377::G1Affine::generator();
    AffG1 { x: fe_of_fq(p.x), y: fe_of_fq(p.y) }
}

fn sample_proof(scheme: Scheme) -> Proof {
    let (rc, ac, ec) = match scheme {
        Scheme::Basic => (2, 0, 4),
        Scheme::Packed => (3, 2, 7),
        Scheme::Counting => (4, 0, 6),
    };
    Proof {
        scheme,
        register_commitments: (0..rc).map(|i| g1c(i + 7)).collect(),
        additional_commitments: (0..ac).map(|i| g1c(i + 17)).collect(),
        q_comm: g1c(29),
        register_evaluations: (0..ec).map(|i| fe_of(Fr::from(1000 + i as u64))).collect(),
        q_zeta: fe_of(Fr::from(77u64)),
        r_zeta_omega: fe_of(Fr::from(88u64)),
        w_at_zeta_proof: g1c(31),
        r_at_zeta_omega_proof: g1c(37),
    }
}

fn sample_verifier(log: u32) -> Verifier {
    Verifier::new(sample_vk(), sample_keyset(log), SimpleTranscript::new(b"apk_proof")).unwrap()
}

#[test]
fn synthetic_proofs_are_rejected_not_errored() {
    let v = sample_verifier(3);
    let bits = vec![true, false, true, true, false];
    let pi = AccountablePublicInput::new(&sample_apk(), &Bitmask::from_bits(&bits));
    let r = v.verify_simple(&pi, &sample_proof(Scheme::Basic));
    assert_eq!(r, Ok(false));
    let r = v.verify_packed(&pi, &sample_proof(Scheme::Packed));
    assert_eq!(r, Ok(false));
    let ci = CountingPublicInput::new(&sample_apk(), &Bitmask::from_bits(&bits));
    let r = v.verify_counting(&ci, &sample_proof(Scheme::Counting));
    assert_eq!(r, Ok(false));
}

#[test]
fn counting_with_zero_participants_is_an_explicit_error() {
    let v = sample_verifier(3);
    let ci = CountingPublicInput { apk: sample_apk(), count: 0 };
    let r = v.verify_counting(&ci, &sample_proof(Scheme::Counting));
    assert_eq!(r, Err(ApkError::ZeroParticipants));
}

#[test]
fn invalid_point_encodings_are_a_decoding_error() {
    let v = sample_verifier(3);
    let bits = vec![true, false];
    let pi = AccountablePublicInput::new(&sample_apk(), &Bitmask::from_bits(&bits));
    let mut proof = sample_proof(Scheme::Basic);
    proof.q_comm = G1C { bytes: vec![0xFF; 96] };
    let r = v.verify_simple(&pi, &proof);
    assert_eq!(r, Err(ApkError::BadPointEncoding));
}

#[test]
fn aggregate_key_at_the_seed_is_rejected() {
    let v = sample_verifier(3);
    let bits = vec![true];
    let h = point_in_g1_complement();
    let pi = AccountablePublicInput::new(&h, &Bitmask::from_bits(&bits));
    let r = v.verify_simple(&pi, &sample_proof(Scheme::Basic));
    assert_eq!(r, Err(ApkError::BadPublicKey));
}

#[test]
fn unsupported_keyset_log_size_fails_construction() {
    assert!(Verifier::new(sample_vk(), sample_keyset(17), SimpleTranscript::new(b"apk_proof"))
        .is_err());
    assert!(Verifier::new(sample_vk(), sample_keyset(0), SimpleTranscript::new(b"apk_proof"))
        .is_err());
}

#[test]
fn different_aggregate_keys_have_different_encodings() {
    let bits = vec![true, true, false];
    let b = Bitmask::from_bits(&bits);
    let pi1 = AccountablePublicInput::new(&sample_apk(), &b);
    let other = {
        let p: ark_bls12_377::G1Affine = (ark_bls12_377::G1Affine::generator()
            * ark_bls12_377::Fr::from(2u64)).into();
        AffG1 { x: fe_of_fq(p.x), y: fe_of_fq(p.y) }
    };
    let pi2 = AccountablePublicInput::new(&other, &b);
    assert_ne!(pi1.to_transcript_bytes(), pi2.to_transcript_bytes());
}

#[test]
fn counting_public_input_counts_the_bits() {
    let bits = vec![true, false, true, true, false, true];
    let ci = CountingPublicInput::new(&sample_apk(), &Bitmask::from_bits(&bits));
    assert_eq!(ci.count, 4);
}

#[test]
fn chord_addition_matches_the_curve_group() {
    // Adding two distinct BLS12-377 points by the verified chord formula
    // agrees with arkworks group addition.
    let p1 = ark_bls12_377::G1Affine::generator();
    let p2: ark_bls12_377::G1Affine = (p1 * ark_bls12_377::Fr::from(5u64)).into();
    let a = AffG1 { x: fe_of_fq(p1.x), y: fe_of_fq(p1.y) };
    let b = AffG1 { x: fe_of_fq(p2.x), y: fe_of_fq(p2.y) };
    let sum = affine_add(&a, &b).unwrap();
    let expected: ark_bls12_377::G1Affine = (p1 + p2).into();
    assert_eq!(sum.x.bytes, fe_of_fq(expected.x).bytes);
    assert_eq!(sum.y.bytes, fe_of_fq(expected.y).bytes);
    // Equal x-coordinates have no chord.
    let same = AffG1 { x: fe_of_fq(p1.x), y: fe_of_fq(p1.y) };
    assert!(affine_add(&a, &same).is_none());
}

#[test]
fn h_is_not_in_g1() {
    let h = point_in_g1_complement();
    let hx = ark_bls12_377::Fq::from_le_bytes_mod_order(&h.x.bytes);
    let hy = ark_bls12_377::Fq::from_le_bytes_mod_order(&h.y.bytes);
    let point = ark_bls12_377::G1Affine::new_unchecked(hx, hy);
    assert!(point.is_on_curve());
    assert!(!point.is_in_correct_subgroup_assuming_on_curve());
}

#[test]
fn verification_is_deterministic() {
    let v = sample_verifier(3);
    let bits = vec![true, false, true];
    let pi = AccountablePublicInput::new(&sample_apk(), &Bitmask::from_bits(&bits));
    let p = sample_proof(Scheme::Basic);
    assert_eq!(v.verify_simple(&pi, &p), v.verify_simple(&pi, &p));
    let ci = CountingPublicInput::new(&sample_apk(), &Bitmask::from_bits(&bits));
    let cp = sample_proof(Scheme::Counting);
    assert_eq!(v.verify_counting(&ci, &cp), v.verify_counting(&ci, &cp));
}

#[test]
fn decoded_proof_verifies_identically() {
    let v = sample_verifier(3);
    let bits = vec![true, true];
    let pi = AccountablePublicInput::new(&sample_apk(), &Bitmask::from_bits(&bits));
    let p = sample_proof(Scheme::Basic);
    let p2 = Proof::from_bytes(Scheme::Basic, &p.to_bytes()).unwrap();
    assert_eq!(v.verify_simple(&pi, &p), v.verify_simple(&pi, &p2));
}
