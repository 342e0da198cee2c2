//! The pairing-based polynomial-commitment layer: the raw verifying key
//! and the batched opening check.
//!
//! Two opening claims — one at the evaluation point, one at its shift —
//! are folded into a single accumulated opening with a stream-drawn
//! coefficient, and decided by one pairing equation, preceded by the
//! mandatory subgroup check on the accumulated elements. The whole check
//! is pinned: the accumulated elements are named multi-scalar
//! combinations of the input encodings, and the returned verdict equals
//! the named outcome.

use vstd::prelude::*;
use crate::fe::{Fe, fadd, fsub, fmul, fe_one, fe_dup, fr_add, fr_sub, fr_mul, fe_zero,
    bytes_equal};
use crate::points::{G1C, G2C, g1_bytes_ok, g2_bytes_ok, g1_is_valid, g2_is_valid, g1c_dup,
    g1_linear_combination, g1_subgroup_check, bw6_pairing, msm_of, g1_subgroup_of, pairing_of,
    comms_views};
use crate::utils::vals_of;
use crate::errors::ApkError;

verus! {

/// The raw verifying key of the commitment scheme: a G1 generator, a G2
/// generator, and the trusted-setup secret in G2.
pub struct RawKzgVk {
    pub g1: G1C,
    pub g2: G2C,
    pub tau_in_g2: G2C,
}

impl RawKzgVk {
    pub open spec fn wf(self) -> bool {
        self.g1.wf() && self.g2.wf() && self.tau_in_g2.wf()
    }

    /// The fixed transcript encoding of the key.
    pub open spec fn bytes_spec(self) -> Seq<u8> {
        self.g1.bytes@ + self.g2.bytes@ + self.tau_in_g2.bytes@
    }

    /// Encodes the key for transcript absorption.
    pub fn to_transcript_bytes(&self) -> (r: Vec<u8>)
        requires
            self.wf(),
        ensures
            r@ == self.bytes_spec(),
    {
        let mut out: Vec<u8> = Vec::new();
        crate::keyset::append_bytes(&mut out, &self.g1.bytes);
        crate::keyset::append_bytes(&mut out, &self.g2.bytes);
        crate::keyset::append_bytes(&mut out, &self.tau_in_g2.bytes);
        out
    }
}

/// Whether the batched opening check accepts: the two claims — commitment
/// `w_comm`, point `zeta`, value `w_at`, proof `w_proof`, and commitment
/// `r_comm`, point `zw`, value `rz`, proof `r_proof` — are folded with
/// coefficients one and `c2` into one accumulated opening, whose elements
/// must lie in the right subgroup and satisfy the pairing equation
/// against the verifying key.
#[verifier::opaque]
pub open spec fn kzg_accept_spec(
    vk: RawKzgVk,
    w_comm: Seq<u8>,
    zeta: nat,
    w_at: nat,
    w_proof: Seq<u8>,
    r_comm: Seq<u8>,
    zw: nat,
    rz: nat,
    r_proof: Seq<u8>,
    c2: nat,
) -> bool {
    let neg_y = fsub(0, fadd(w_at, fmul(c2, rz)));
    let s2 = fmul(c2, zw);
    let acc = msm_of(
        seq![w_comm, r_comm, vk.g1.bytes@, w_proof, r_proof],
        seq![1nat, c2, neg_y, zeta, s2],
    );
    let acc_proof = msm_of(seq![w_proof, r_proof], seq![1nat, c2]);
    &&& g1_subgroup_of(acc)
    &&& g1_subgroup_of(acc_proof)
    &&& pairing_of(acc, vk.g2.bytes@) == pairing_of(acc_proof, vk.tau_in_g2.bytes@)
}

/// Checks the two batched opening claims with one pairing equation; the
/// verdict equals the named outcome `kzg_accept_spec`. Fails exactly when
/// a verifying-key encoding is not a valid point.
#[verifier::rlimit(100)]
pub fn kzg_batch_verify(
    vk: &RawKzgVk,
    w_comm: &G1C,
    zeta: &Fe,
    w_at_zeta: &Fe,
    w_proof: &G1C,
    r_comm: &G1C,
    zeta_omega: &Fe,
    r_zeta_omega: &Fe,
    r_proof: &G1C,
    coeff2: &Fe,
) -> (r: Result<bool, ApkError>)
    requires
        vk.wf(),
        w_comm.wf() && g1_bytes_ok(w_comm.bytes@),
        r_comm.wf() && g1_bytes_ok(r_comm.bytes@),
        w_proof.wf() && g1_bytes_ok(w_proof.bytes@),
        r_proof.wf() && g1_bytes_ok(r_proof.bytes@),
        zeta.wf(),
        w_at_zeta.wf(),
        zeta_omega.wf(),
        r_zeta_omega.wf(),
        coeff2.wf(),
    ensures
        r is Ok <==> g1_bytes_ok(vk.g1.bytes@) && g2_bytes_ok(vk.g2.bytes@) && g2_bytes_ok(
            vk.tau_in_g2.bytes@,
        ),
        r is Err ==> r->Err_0 == ApkError::BadPointEncoding,
        r is Ok ==> r->Ok_0 == kzg_accept_spec(
            *vk,
            w_comm.bytes@,
            zeta.val(),
            w_at_zeta.val(),
            w_proof.bytes@,
            r_comm.bytes@,
            zeta_omega.val(),
            r_zeta_omega.val(),
            r_proof.bytes@,
            coeff2.val(),
        ),
{
    if !g1_is_valid(&vk.g1) {
        return Err(ApkError::BadPointEncoding);
    }
    if !g2_is_valid(&vk.g2) {
        return Err(ApkError::BadPointEncoding);
    }
    if !g2_is_valid(&vk.tau_in_g2) {
        return Err(ApkError::BadPointEncoding);
    }
    // acc = w_comm + coeff2 * r_comm
    //     - (w_at_zeta + coeff2 * r_zeta_omega) * g1
    //     + zeta * w_proof + (coeff2 * zeta_omega) * r_proof
    let one = fe_one();
    let zero = fe_zero();
    let y_agg = fr_add(w_at_zeta, &fr_mul(coeff2, r_zeta_omega));
    let neg_y_agg = fr_sub(&zero, &y_agg);
    let s_r_proof = fr_mul(coeff2, zeta_omega);

    let mut points: Vec<G1C> = Vec::new();
    points.push(g1c_dup(w_comm));
    points.push(g1c_dup(r_comm));
    points.push(g1c_dup(&vk.g1));
    points.push(g1c_dup(w_proof));
    points.push(g1c_dup(r_proof));
    let mut scalars: Vec<Fe> = Vec::new();
    scalars.push(fe_dup(&one));
    scalars.push(fe_dup(coeff2));
    scalars.push(neg_y_agg);
    scalars.push(fe_dup(zeta));
    scalars.push(s_r_proof);
    let acc = g1_linear_combination(&points, &scalars);

    let mut proof_points: Vec<G1C> = Vec::new();
    proof_points.push(g1c_dup(w_proof));
    proof_points.push(g1c_dup(r_proof));
    let mut proof_scalars: Vec<Fe> = Vec::new();
    proof_scalars.push(one);
    proof_scalars.push(fe_dup(coeff2));
    let acc_proof = g1_linear_combination(&proof_points, &proof_scalars);

    proof {
        assert(comms_views(points@) =~= seq![
            w_comm.bytes@,
            r_comm.bytes@,
            vk.g1.bytes@,
            w_proof.bytes@,
            r_proof.bytes@,
        ]);
        assert(vals_of(scalars@) =~= seq![
            1nat,
            coeff2.val(),
            fsub(0, fadd(w_at_zeta.val(), fmul(coeff2.val(), r_zeta_omega.val()))),
            zeta.val(),
            fmul(coeff2.val(), zeta_omega.val()),
        ]);
        assert(comms_views(proof_points@) =~= seq![w_proof.bytes@, r_proof.bytes@]);
        assert(vals_of(proof_scalars@) =~= seq![1nat, coeff2.val()]);
    }
    // The lazy subgroup check: the pairing equation alone does not pin the
    // accumulated elements to the right prime-order subgroup.
    let in_subgroup = g1_subgroup_check(&acc) && g1_subgroup_check(&acc_proof);
    let lhs = bw6_pairing(&acc, &vk.g2);
    let rhs = bw6_pairing(&acc_proof, &vk.tau_in_g2);
    let pairing_holds = bytes_equal(&lhs, &rhs);
    proof {
        reveal(kzg_accept_spec);
    }
    Ok(in_subgroup && pairing_holds)
}

} // verus!
