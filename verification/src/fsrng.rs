//! The challenge-derived pseudorandom stream used for the batched-opening
//! coefficients.
//!
//! The stream is keyed by the transcript alone. A fixed non-secret pad is
//! absorbed first — a vestige of domain separation kept for wire
//! compatibility: the 32 pad bytes stand where a witness rekeying would mix
//! in entropy, and are fixed to zero precisely because a Fiat-Shamir
//! verifier must be able to replay the stream from public data.

use vstd::prelude::*;
use crate::transcript::{SimpleTranscript, SimpleTranscriptRng, zero_bytes};
use crate::labels::{lbl_verifier_secret, lbl_verifier_secret_vec};

verus! {

/// The fixed pad absorbed before the stream starts.
pub open spec fn fs_rng_pad() -> Seq<u8> {
    lbl_verifier_secret() + seq![42u8] + zero_bytes(32)
}

/// Builds the deterministic opening-coefficient stream from the transcript
/// state; the transcript itself is left as it was.
pub fn simple_fiat_shamir_rng(transcript: &mut SimpleTranscript) -> (r: SimpleTranscriptRng)
    ensures
        final(transcript)@ == old(transcript)@,
        r.transcript@ == old(transcript)@ + fs_rng_pad(),
{
    let mut stream = transcript.duplicate();
    let label = lbl_verifier_secret_vec();
    stream.update(label.as_slice());
    let mut tag: Vec<u8> = Vec::new();
    tag.push(42u8);
    stream.update(tag.as_slice());
    let pad = crate::transcript::zero_byte_vec(32);
    stream.update(pad.as_slice());
    proof {
        assert(stream@ =~= old(transcript)@ + fs_rng_pad());
    }
    SimpleTranscriptRng { transcript: stream }
}

} // verus!
