//! Fiat-Shamir transcript over a plain byte buffer.
//!
//! Messages are absorbed by appending a domain-separation label and the
//! message's fixed encoding; a challenge is derived by appending the label
//! and reading sixteen bytes of a Keccak-256 digest of the whole buffer,
//! interpreted as a little-endian integer (below the field order).

use vstd::prelude::*;
use crate::fe::{Fe, bytes_val, fr_from_16_bytes};
use tiny_keccak::Hasher;

verus! {

/// Keccak-256 squeezed to `out_len` bytes; deterministic in its arguments.
pub uninterp spec fn keccak256(input: Seq<u8>, out_len: nat) -> Seq<u8>;

/// Relies on tiny_keccak's Keccak-256: the digest depends on the input bytes
/// alone, and exactly the requested number of output bytes is produced.
#[verifier::external_body]
fn keccak_squeeze(input: &Vec<u8>, out_len: usize) -> (r: Vec<u8>)
    ensures
        r@ == keccak256(input@, out_len as nat),
        r@.len() == out_len,
{
    let mut k = tiny_keccak::Keccak::v256();
    k.update(&input[..]);
    let mut out = vec![0u8; out_len];
    k.finalize(&mut out);
    out
}

/// The sixteen digest bytes a challenge under `label` is read from, given the
/// buffer contents before the derivation.
pub open spec fn challenge_bytes(buf: Seq<u8>, label: Seq<u8>) -> Seq<u8> {
    keccak256(buf + label, 16)
}

/// The integer value of a challenge under `label`.
pub open spec fn challenge_val(buf: Seq<u8>, label: Seq<u8>) -> nat {
    bytes_val(challenge_bytes(buf, label))
}

/// `s` repeated `n` times.
pub open spec fn rep_bytes(s: Seq<u8>, n: nat) -> Seq<u8>
    decreases n,
{
    if n == 0 {
        Seq::empty()
    } else {
        rep_bytes(s, (n - 1) as nat) + s
    }
}

/// A transcript: the concatenation of everything absorbed so far.
pub struct SimpleTranscript {
    buffer: Vec<u8>,
}

impl View for SimpleTranscript {
    type V = Seq<u8>;

    closed spec fn view(&self) -> Seq<u8> {
        self.buffer@
    }
}

impl SimpleTranscript {
    /// A transcript holding just the given protocol label.
    pub fn new(message: &[u8]) -> (r: SimpleTranscript)
        ensures
            r@ == message@,
    {
        let buffer: Vec<u8> = Vec::new();
        let mut transcript = SimpleTranscript { buffer };
        transcript.update(message);
        transcript
    }

    /// Appends raw bytes to the transcript.
    pub fn update(&mut self, message: &[u8])
        ensures
            final(self)@ == old(self)@ + message@,
    {
        let n = message.len();
        let mut i: usize = 0;
        while i < n
            invariant
                i <= n,
                n == message@.len(),
                self@ == old(self)@ + message@.take(i as int),
            decreases n - i,
        {
            let b = message[i];
            self.buffer.push(b);
            proof {
                assert(old(self)@ + message@.take(i + 1 as int) =~= (old(self)@
                    + message@.take(i as int)).push(message@[i as int]));
            }
            i += 1;
        }
        proof {
            assert(message@.take(n as int) =~= message@);
        }
    }

    /// Empties the transcript.
    pub fn reset(&mut self)
        ensures
            final(self)@ == Seq::<u8>::empty(),
    {
        self.buffer = Vec::new();
        proof {
            assert(self@ =~= Seq::<u8>::empty());
        }
    }

    /// Squeezes `out_len` digest bytes of the current buffer.
    pub fn finalize(&self, out_len: usize) -> (r: Vec<u8>)
        ensures
            r@ == keccak256(self@, out_len as nat),
            r@.len() == out_len,
    {
        keccak_squeeze(&self.buffer, out_len)
    }

    /// Derives one scalar challenge under `label`.
    pub fn _get_128_bit_challenge(&mut self, label: &[u8]) -> (r: Fe)
        ensures
            final(self)@ == old(self)@ + label@,
            r.wf(),
            r.val() == challenge_val(old(self)@, label@),
    {
        self.update(label);
        let output = self.finalize(16);
        fr_from_16_bytes(&output)
    }

    /// Derives `n` scalar challenges under one label, in order.
    pub fn _get_128_bit_challenges(&mut self, label: &[u8], n: usize) -> (r: Vec<Fe>)
        ensures
            r@.len() == n,
            forall|i: int| 0 <= i < n ==> (#[trigger] r@[i]).wf(),
            forall|i: int|
                0 <= i < n ==> (#[trigger] r@[i]).val() == challenge_val(
                    old(self)@ + rep_bytes(label@, i as nat),
                    label@,
                ),
            final(self)@ == old(self)@ + rep_bytes(label@, n as nat),
    {
        let mut out: Vec<Fe> = Vec::new();
        let mut i: usize = 0;
        proof {
            assert(old(self)@ + rep_bytes(label@, 0) =~= old(self)@);
        }
        while i < n
            invariant
                i <= n,
                out@.len() == i,
                self@ == old(self)@ + rep_bytes(label@, i as nat),
                forall|j: int| 0 <= j < i ==> (#[trigger] out@[j]).wf(),
                forall|j: int|
                    0 <= j < i ==> (#[trigger] out@[j]).val() == challenge_val(
                        old(self)@ + rep_bytes(label@, j as nat),
                        label@,
                    ),
            decreases n - i,
        {
            let c = self._get_128_bit_challenge(label);
            out.push(c);
            proof {
                assert(rep_bytes(label@, (i + 1) as nat) == rep_bytes(label@, i as nat)
                    + label@);
                assert(old(self)@ + rep_bytes(label@, (i + 1) as nat) =~= (old(self)@
                    + rep_bytes(label@, i as nat)) + label@);
            }
            i += 1;
        }
        proof {
            assert(self@ =~= old(self)@ + rep_bytes(label@, n as nat));
        }
        out
    }

    /// Absorbs a labelled, already-encoded message.
    pub fn _append_serializable(&mut self, label: &[u8], message: &[u8])
        ensures
            final(self)@ == old(self)@ + label@ + message@,
    {
        self.update(label);
        self.update(message);
    }

    /// An owned copy of the transcript.
    pub fn duplicate(&self) -> (r: SimpleTranscript)
        ensures
            r@ == self@,
    {
        let n = self.buffer.len();
        let mut out: Vec<u8> = Vec::new();
        let mut i: usize = 0;
        while i < n
            invariant
                i <= n,
                n == self.buffer@.len(),
                out@ == self.buffer@.take(i as int),
            decreases n - i,
        {
            out.push(self.buffer[i]);
            proof {
                assert(self.buffer@.take(i + 1 as int) =~= self.buffer@.take(i as int).push(
                    self.buffer@[i as int],
                ));
            }
            i += 1;
        }
        proof {
            assert(self.buffer@.take(n as int) =~= self.buffer@);
        }
        SimpleTranscript { buffer: out }
    }
}

impl SimpleTranscript {
    /// Absorbs the protocol parameters: the domain and the verifying key.
    pub fn set_protocol_params(&mut self, domain: &crate::domain::Domain, kzg_vk: &crate::kzg::RawKzgVk)
        requires
            domain.wf(),
            kzg_vk.wf(),
        ensures
            final(self)@ == old(self)@ + crate::labels::lbl_domain() + domain.bytes_spec()
                + crate::labels::lbl_vk() + kzg_vk.bytes_spec(),
    {
        let lbl = crate::labels::lbl_domain_vec();
        let msg = domain.to_transcript_bytes();
        self._append_serializable(lbl.as_slice(), msg.as_slice());
        let lbl2 = crate::labels::lbl_vk_vec();
        let msg2 = kzg_vk.to_transcript_bytes();
        self._append_serializable(lbl2.as_slice(), msg2.as_slice());
    }

    /// Absorbs the keyset commitment.
    pub fn set_keyset_commitment(&mut self, keyset_commitment: &crate::keyset::KeysetCommitment)
        requires
            keyset_commitment.wf(),
        ensures
            final(self)@ == old(self)@ + crate::labels::lbl_keyset_commitment()
                + keyset_commitment.bytes_spec(),
    {
        let lbl = crate::labels::lbl_keyset_commitment_vec();
        let msg = keyset_commitment.to_transcript_bytes();
        self._append_serializable(lbl.as_slice(), msg.as_slice());
    }

    /// Absorbs the public input.
    pub fn append_public_input<PI: crate::public_input::PublicInput>(&mut self, public_input: &PI)
        requires
            public_input.wf_spec(),
        ensures
            final(self)@ == old(self)@ + crate::labels::lbl_public_input()
                + public_input.bytes_spec(),
    {
        let lbl = crate::labels::lbl_public_input_vec();
        let msg = public_input.to_transcript_bytes();
        self._append_serializable(lbl.as_slice(), msg.as_slice());
    }

    /// Absorbs the first-round register commitments.
    pub fn append_register_commitments(&mut self, cs: &Vec<crate::points::G1C>)
        ensures
            final(self)@ == old(self)@ + crate::labels::lbl_register_commitments()
                + crate::proofs::comms_bytes(cs@),
    {
        let lbl = crate::labels::lbl_register_commitments_vec();
        let mut msg: Vec<u8> = Vec::new();
        crate::proofs::append_comms(&mut msg, cs);
        self._append_serializable(lbl.as_slice(), msg.as_slice());
    }

    /// Derives the bitmask-chunk aggregation challenge.
    pub fn get_bitmask_aggregation_challenge(&mut self) -> (r: Fe)
        ensures
            final(self)@ == old(self)@ + crate::labels::lbl_bitmask_aggregation(),
            r.wf(),
            r.val() == challenge_val(old(self)@, crate::labels::lbl_bitmask_aggregation()),
    {
        let lbl = crate::labels::lbl_bitmask_aggregation_vec();
        self._get_128_bit_challenge(lbl.as_slice())
    }

    /// Absorbs the second-round register commitments.
    pub fn append_2nd_round_register_commitments(&mut self, cs: &Vec<crate::points::G1C>)
        ensures
            final(self)@ == old(self)@ + crate::labels::lbl_second_round_register_commitments()
                + crate::proofs::comms_bytes(cs@),
    {
        let lbl = crate::labels::lbl_second_round_register_commitments_vec();
        let mut msg: Vec<u8> = Vec::new();
        crate::proofs::append_comms(&mut msg, cs);
        self._append_serializable(lbl.as_slice(), msg.as_slice());
    }

    /// Derives the constraint-aggregation challenge.
    pub fn get_constraints_aggregation_challenge(&mut self) -> (r: Fe)
        ensures
            final(self)@ == old(self)@ + crate::labels::lbl_constraints_aggregation(),
            r.wf(),
            r.val() == challenge_val(old(self)@, crate::labels::lbl_constraints_aggregation()),
    {
        let lbl = crate::labels::lbl_constraints_aggregation_vec();
        self._get_128_bit_challenge(lbl.as_slice())
    }

    /// Absorbs the quotient commitment.
    pub fn append_quotient_commitment(&mut self, point: &crate::points::G1C)
        ensures
            final(self)@ == old(self)@ + crate::labels::lbl_quotient() + point.bytes@,
    {
        let lbl = crate::labels::lbl_quotient_vec();
        self._append_serializable(lbl.as_slice(), point.bytes.as_slice());
    }

    /// Derives the evaluation point.
    pub fn get_evaluation_point(&mut self) -> (r: Fe)
        ensures
            final(self)@ == old(self)@ + crate::labels::lbl_evaluation_point(),
            r.wf(),
            r.val() == challenge_val(old(self)@, crate::labels::lbl_evaluation_point()),
    {
        let lbl = crate::labels::lbl_evaluation_point_vec();
        self._get_128_bit_challenge(lbl.as_slice())
    }

    /// Absorbs the register evaluations, the quotient evaluation and the
    /// shifted linearization evaluation.
    pub fn append_evaluations(&mut self, evals: &Vec<Fe>, q_at_zeta: &Fe, r_at_zeta_omega: &Fe)
        ensures
            final(self)@ == old(self)@ + crate::labels::lbl_register_evaluations()
                + crate::proofs::fes_bytes(evals@) + crate::labels::lbl_quotient_evaluation()
                + q_at_zeta.bytes@ + crate::labels::lbl_shifted_linearization_evaluation()
                + r_at_zeta_omega.bytes@,
    {
        let lbl = crate::labels::lbl_register_evaluations_vec();
        let mut msg: Vec<u8> = Vec::new();
        crate::proofs::append_fes(&mut msg, evals);
        self._append_serializable(lbl.as_slice(), msg.as_slice());
        let lbl2 = crate::labels::lbl_quotient_evaluation_vec();
        self._append_serializable(lbl2.as_slice(), q_at_zeta.bytes.as_slice());
        let lbl3 = crate::labels::lbl_shifted_linearization_evaluation_vec();
        self._append_serializable(lbl3.as_slice(), r_at_zeta_omega.bytes.as_slice());
    }

    /// Derives the opening-batching challenges.
    pub fn get_kzg_aggregation_challenges(&mut self, n: usize) -> (r: Vec<Fe>)
        ensures
            r@.len() == n,
            forall|i: int| 0 <= i < n ==> (#[trigger] r@[i]).wf(),
            forall|i: int|
                0 <= i < n ==> (#[trigger] r@[i]).val() == challenge_val(
                    old(self)@ + rep_bytes(crate::labels::lbl_kzg_aggregation(), i as nat),
                    crate::labels::lbl_kzg_aggregation(),
                ),
            final(self)@ == old(self)@ + rep_bytes(
                crate::labels::lbl_kzg_aggregation(),
                n as nat,
            ),
    {
        let lbl = crate::labels::lbl_kzg_aggregation_vec();
        self._get_128_bit_challenges(lbl.as_slice(), n)
    }
}

/// A run of `n` zero bytes.
pub open spec fn zero_bytes(n: nat) -> Seq<u8> {
    Seq::new(n, |i: int| 0u8)
}

/// A vector of `n` zero bytes.
pub fn zero_byte_vec(n: usize) -> (r: Vec<u8>)
    ensures
        r@ == zero_bytes(n as nat),
{
    let mut out: Vec<u8> = Vec::new();
    let mut i: usize = 0;
    while i < n
        invariant
            i <= n,
            out@.len() == i,
            forall|j: int| 0 <= j < i ==> out@[j] == 0u8,
        decreases n - i,
    {
        out.push(0u8);
        i += 1;
    }
    proof {
        assert(out@ =~= zero_bytes(n as nat));
    }
    out
}

/// The 128-bit scalar the stream yields from state `t`: two eight-byte
/// digest draws, each over the state extended by a zero block, low half
/// first, read as one little-endian integer.
pub open spec fn stream_coeff_of(t: Seq<u8>) -> nat {
    bytes_val(
        keccak256(t + zero_bytes(8), 8) + keccak256(t + zero_bytes(8) + zero_bytes(8), 8),
    )
}

/// A deterministic byte stream keyed by the transcript state alone. By the
/// Fiat-Shamir paradigm it must be reconstructible from public data, so it
/// draws on no real entropy.
pub struct SimpleTranscriptRng {
    pub transcript: SimpleTranscript,
}

impl SimpleTranscriptRng {
    /// Draws `out_len` bytes: absorbs a block of eight zero bytes, then
    /// squeezes a digest of the whole stream state.
    pub fn fill_bytes(&mut self, out_len: usize) -> (r: Vec<u8>)
        ensures
            final(self).transcript@ == old(self).transcript@ + zero_bytes(8),
            r@ == keccak256(old(self).transcript@ + zero_bytes(8), out_len as nat),
            r@.len() == out_len,
    {
        let block = zero_byte_vec(8);
        self.transcript.update(block.as_slice());
        self.transcript.finalize(out_len)
    }

    /// Draws a 128-bit scalar from the stream: two eight-byte draws, low
    /// half first, read as one sixteen-byte little-endian integer.
    pub fn next_u128_fe(&mut self) -> (r: Fe)
        ensures
            final(self).transcript@ == old(self).transcript@ + zero_bytes(8) + zero_bytes(8),
            r.wf(),
            r.val() == stream_coeff_of(old(self).transcript@),
    {
        let mut both = self.fill_bytes(8);
        let hi = self.fill_bytes(8);
        crate::keyset::append_bytes(&mut both, &hi);
        fr_from_16_bytes(&both)
    }
}

} // verus!
