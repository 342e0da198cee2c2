//! Proof encoding: fixed sizes, round trips, fail-fast rejection.

use apk_proofs::proofs::{Proof, Scheme};
use apk_proofs::fe::Fe;
use apk_proofs::points::G1C;
use ark_bw6_761::{Fr, G1Affine};
use ark_ec::AffineRepr;
use ark_serialize::CanonicalSerialize;

fn fe_of(f: Fr) -> Fe {
    let mut out: Vec<u8> = Vec::new();
    f.serialize_compressed(&mut out).unwrap();
    Fe { bytes: out }
}

fn gen_comm(scale: u64) -> G1C {
    let p = (G1Affine::generator() * Fr::from(scale)).into();
    let p: G1Affine = p;
    let mut out: Vec<u8> = Vec::new();
    p.serialize_compressed(&mut out).unwrap();
    G1C { bytes: out }
}

fn sample_proof(scheme: Scheme) -> Proof {
    let (rc, ac, ec) = match scheme {
        Scheme::Basic => (2, 0, 4),
        Scheme::Packed => (3, 2, 7),
        Scheme::Counting => (4, 0, 6),
    };
    let register_commitments = (0..rc).map(|i| gen_comm(i + 2)).collect();
    let additional_commitments = (0..ac).map(|i| gen_comm(i + 20)).collect();
    let register_evaluations = (0..ec).map(|i| fe_of(Fr::from(100 + i as u64))).collect();
    Proof {
        scheme,
        register_commitments,
        additional_commitments,
        q_comm: gen_comm(31),
        register_evaluations,
        q_zeta: fe_of(Fr::from(41u64)),
        r_zeta_omega: fe_of(Fr::from(43u64)),
        w_at_zeta_proof: gen_comm(51),
        r_at_zeta_omega_proof: gen_comm(53),
    }
}

#[test]
fn proof_sizes_are_fixed() {
    // One group element occupies two 48-byte words, one field element one.
    assert_eq!(sample_proof(Scheme::Basic).to_bytes().len(), (5 * 2 + 6) * 48);
    assert_eq!(sample_proof(Scheme::Packed).to_bytes().len(), (8 * 2 + 9) * 48);
    assert_eq!(sample_proof(Scheme::Counting).to_bytes().len(), (7 * 2 + 8) * 48);
}

#[test]
fn round_trip_preserves_every_field() {
    for scheme in [Scheme::Basic, Scheme::Packed, Scheme::Counting] {
        let p = sample_proof(scheme);
        let bytes = p.to_bytes();
        let q = Proof::from_bytes(scheme, &bytes).unwrap();
        assert_eq!(q.to_bytes(), bytes);
        assert_eq!(q.q_zeta.bytes, p.q_zeta.bytes);
        assert_eq!(q.r_zeta_omega.bytes, p.r_zeta_omega.bytes);
        assert_eq!(q.q_comm.bytes, p.q_comm.bytes);
        assert_eq!(q.register_commitments.len(), p.register_commitments.len());
        assert_eq!(q.register_evaluations.len(), p.register_evaluations.len());
    }
}

#[test]
fn wrong_length_fails_before_contents() {
    let p = sample_proof(Scheme::Basic);
    let mut bytes = p.to_bytes();
    bytes.push(0);
    assert!(Proof::from_bytes(Scheme::Basic, &bytes).is_none());
    bytes.pop();
    bytes.pop();
    assert!(Proof::from_bytes(Scheme::Basic, &bytes).is_none());
    // A basic-length blob does not decode under the other schemes either.
    let bytes = p.to_bytes();
    assert!(Proof::from_bytes(Scheme::Packed, &bytes).is_none());
    assert!(Proof::from_bytes(Scheme::Counting, &bytes).is_none());
}

#[test]
fn corrupted_slots_are_rejected() {
    let p = sample_proof(Scheme::Basic);
    let bytes = p.to_bytes();
    // A commitment slot overwritten with a non-point encoding.
    let mut bad = bytes.clone();
    for b in bad[0..96].iter_mut() {
        *b = 0xFF;
    }
    assert!(Proof::from_bytes(Scheme::Basic, &bad).is_none());
    // An evaluation slot overwritten with a non-canonical encoding.
    let mut bad = bytes.clone();
    for b in bad[5 * 96..5 * 96 + 48].iter_mut() {
        *b = 0xFF;
    }
    assert!(Proof::from_bytes(Scheme::Basic, &bad).is_none());
}
