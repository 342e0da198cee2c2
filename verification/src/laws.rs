//! Crate-level laws: properties that tie several functions together,
//! stated and proved once.

use vstd::prelude::*;
use crate::fe::lemma_bytes_val_injective;
use crate::proofs::{Proof, Scheme, proof_byte_len, decode_ok, lemma_comms_bytes_len,
    lemma_fes_bytes_len};
use crate::public_input::{PublicInput, AccountablePublicInput};
use crate::verification::{Challenges, challenges_match};

verus! {

/// Fixed proof size: a well-formed proof's encoding length depends on the
/// scheme alone — 768 bytes for the basic scheme, 1200 for the packed
/// scheme and 1056 for the counting scheme — never on the domain size or
/// the bitmask contents.
pub proof fn lemma_fixed_proof_size(p: Proof)
    requires
        p.wf(),
    ensures
        p.bytes_spec().len() == proof_byte_len(p.scheme),
        proof_byte_len(Scheme::Basic) == 768,
        proof_byte_len(Scheme::Packed) == 1200,
        proof_byte_len(Scheme::Counting) == 1056,
{
    lemma_comms_bytes_len(p.register_commitments@);
    lemma_comms_bytes_len(p.additional_commitments@);
    lemma_fes_bytes_len(p.register_evaluations@);
}

/// A serialized proof of the wrong byte length cannot decode: the length
/// test fails before any of the contents is examined.
pub proof fn lemma_wrong_length_rejected(s: Scheme, b: Seq<u8>)
    requires
        b.len() != proof_byte_len(s),
    ensures
        !decode_ok(s, b),
{
}

/// Challenge determinism: two challenge derivations over the same
/// transcript state, public input and proof agree on every challenge —
/// the whole walk is a pure function of its public inputs.
pub proof fn lemma_challenge_determinism<PI: PublicInput>(
    c1: Challenges,
    c2: Challenges,
    t0: Seq<u8>,
    pi: PI,
    p: Proof,
    n: nat,
)
    requires
        challenges_match(c1, t0, pi, p, n),
        challenges_match(c2, t0, pi, p, n),
    ensures
        c1.r.val() == c2.r.val(),
        c1.phi.val() == c2.phi.val(),
        c1.zeta.val() == c2.zeta.val(),
        c1.nus@.len() == n && c2.nus@.len() == n,
        forall|i: int|
            0 <= i < n ==> (#[trigger] c1.nus@[i]).val() == (#[trigger] c2.nus@[i]).val(),
{
    assert forall|i: int| 0 <= i < n implies (#[trigger] c1.nus@[i]).val() == (
    #[trigger] c2.nus@[i]).val() by {
        assert(crate::utils::vals_of(c1.nus@)[i] == c1.nus@[i].val());
        assert(crate::utils::vals_of(c2.nus@)[i] == c2.nus@[i].val());
    }
}

/// Public-input binding: accountable public inputs with different
/// aggregate keys have different transcript encodings, so the challenge
/// derivations they drive diverge from the very first absorption.
pub proof fn lemma_public_input_binding(p1: AccountablePublicInput, p2: AccountablePublicInput)
    requires
        p1.wf_spec(),
        p2.wf_spec(),
        p1.apk.x.val() != p2.apk.x.val(),
    ensures
        p1.bytes_spec() != p2.bytes_spec(),
{
    lemma_bytes_val_injective(p1.apk.x.bytes@, p2.apk.x.bytes@);
    if p1.bytes_spec() == p2.bytes_spec() {
        assert(p1.apk.x.bytes@ =~= p2.apk.x.bytes@) by {
            assert forall|i: int| 0 <= i < 48 implies p1.apk.x.bytes@[i] == p2.apk.x.bytes@[i] by {
                assert(p1.bytes_spec()[i] == p2.bytes_spec()[i]);
            }
        }
    }
}

} // verus!
