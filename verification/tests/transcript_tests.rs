//! The transcript against tiny_keccak and arkworks directly.

use apk_proofs::transcript::{SimpleTranscript, SimpleTranscriptRng};
use apk_proofs::fsrng::simple_fiat_shamir_rng;
use ark_bw6_761::Fr;
use ark_ff::PrimeField;
use ark_serialize::CanonicalSerialize;
use tiny_keccak::Hasher;
use ark_ff::Field;

fn keccak_direct(input: &[u8], out_len: usize) -> Vec<u8> {
    let mut k = tiny_keccak::Keccak::v256();
    k.update(input);
    let mut out = vec![0u8; out_len];
    k.finalize(&mut out);
    out
}

#[test]
fn finalize_is_keccak_of_the_buffer() {
    let mut t = SimpleTranscript::new(b"apk_proof");
    t.update(b"hello");
    let digest = t.finalize(32);
    let mut manual = b"apk_proof".to_vec();
    manual.extend_from_slice(b"hello");
    assert_eq!(digest, keccak_direct(&manual, 32));
}

#[test]
fn reset_empties_the_buffer() {
    let mut t = SimpleTranscript::new(b"apk_proof");
    t.update(b"data");
    t.reset();
    assert_eq!(t.finalize(32), keccak_direct(b"", 32));
}

#[test]
fn challenge_is_reduced_digest() {
    let mut t = SimpleTranscript::new(b"state");
    let c = t._get_128_bit_challenge(b"evaluation_point");
    let mut manual = b"state".to_vec();
    manual.extend_from_slice(b"evaluation_point");
    let digest16 = keccak_direct(&manual, 16);
    let expected = Fr::from_random_bytes(&digest16).unwrap();
    let mut expected_bytes: Vec<u8> = Vec::new();
    expected.serialize_compressed(&mut expected_bytes).unwrap();
    assert_eq!(c.bytes, expected_bytes);
}

#[test]
fn challenge_derivation_is_deterministic() {
    // Two independent walks over identical state yield identical
    // challenges, including the repeated-label batch.
    let mut t1 = SimpleTranscript::new(b"apk_proof");
    let mut t2 = SimpleTranscript::new(b"apk_proof");
    t1.update(b"same-messages");
    t2.update(b"same-messages");
    let r1 = t1._get_128_bit_challenge(b"bitmask_aggregation");
    let r2 = t2._get_128_bit_challenge(b"bitmask_aggregation");
    assert_eq!(r1.bytes, r2.bytes);
    let nus1 = t1._get_128_bit_challenges(b"kzg_aggregation", 5);
    let nus2 = t2._get_128_bit_challenges(b"kzg_aggregation", 5);
    assert_eq!(nus1.len(), 5);
    for i in 0..5 {
        assert_eq!(nus1[i].bytes, nus2[i].bytes);
    }
    // Consecutive draws under one label differ: the label is re-absorbed.
    assert_ne!(nus1[0].bytes, nus1[1].bytes);
}

#[test]
fn stream_draws_are_digests_of_zero_padded_state() {
    let t = SimpleTranscript::new(b"seed");
    let mut rng = SimpleTranscriptRng { transcript: t };
    let draw = rng.fill_bytes(8);
    let mut manual = b"seed".to_vec();
    manual.extend_from_slice(&[0u8; 8]);
    assert_eq!(draw, keccak_direct(&manual, 8));
    // The next draw absorbs another zero block first.
    let draw2 = rng.fill_bytes(8);
    manual.extend_from_slice(&[0u8; 8]);
    assert_eq!(draw2, keccak_direct(&manual, 8));
}

#[test]
fn fiat_shamir_stream_matches_manual_padding() {
    let mut t = SimpleTranscript::new(b"proof-state");
    let mut rng = simple_fiat_shamir_rng(&mut t);
    let mut manual = SimpleTranscript::new(b"proof-state");
    manual.update(b"verifier_secret");
    manual.update(&[42u8]);
    manual.update(&[0u8; 32]);
    let mut manual_rng = SimpleTranscriptRng { transcript: manual };
    assert_eq!(rng.fill_bytes(16), manual_rng.fill_bytes(16));
    // The source transcript itself is left unchanged.
    assert_eq!(t.finalize(32), SimpleTranscript::new(b"proof-state").finalize(32));
}
