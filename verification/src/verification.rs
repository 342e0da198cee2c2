//! The verifier: re-derives every challenge from public data by the fixed
//! transcript walk, rebuilds the linearization commitment homomorphically,
//! checks the batched opening at the evaluation point and its shift, and
//! decides the final polynomial identity.
//!
//! Every verdict is pinned: each verify operation ensures its result
//! equals a spec-level verdict function of the verifier state, the public
//! input and the proof alone, with the pairing side expressed through the
//! named group operations on the commitment encodings.

use vstd::prelude::*;
use crate::fe::{Fe, fadd, fsub, fmul, fe_dup, fr_add, fr_mul, fr_from_u64, fe_zero, fe_eq};
use crate::transcript::{SimpleTranscript, SimpleTranscriptRng, challenge_val, rep_bytes,
    stream_coeff_of};
use crate::labels::{lbl_public_input, lbl_register_commitments, lbl_bitmask_aggregation,
    lbl_second_round_register_commitments, lbl_constraints_aggregation, lbl_quotient,
    lbl_evaluation_point, lbl_register_evaluations, lbl_quotient_evaluation,
    lbl_shifted_linearization_evaluation, lbl_kzg_aggregation, lbl_domain, lbl_vk,
    lbl_keyset_commitment};
use crate::domain::{Domain, fr_pow};
use crate::keyset::KeysetCommitment;
use crate::public_input::{PublicInput, AccountablePublicInput, CountingPublicInput};
use crate::proofs::{Proof, Scheme, comms_bytes, fes_bytes};
use crate::points::{AffG1, G1C, g1_bytes_ok, g2_bytes_ok, g1_is_valid, g1c_dup, g1_linear_combination,
    comms_views, msm_of};
use crate::kzg::{RawKzgVk, kzg_batch_verify, kzg_accept_spec};
use crate::utils::{LagrangeEvaluations, lagrange_evaluations, vals_of, horner_field,
    horner_spec, barycentric_eval_binary_at, bary_eval_of, van_of, not_last_of, l_first_of,
    l_last_of};
use crate::piop::{CoreEvals, core_constraint_vals, evaluate_core_constraints,
    linearization_scalars_core, linearization_scalar_acc, linearization_scalar_c,
    evaluate_packed_extra, evaluate_counting_extra, evaluate_packed_chunk_constraints,
    chunk_step_at, chunk_step_spec, a6_packed_spec, a7_packed_spec, a8_packed_spec,
    a9_packed_spec, a6_counting_spec, a7_counting_spec, lin_sx_spec, lin_sy_spec,
    lin_acc_spec, lin_c_spec};
use crate::bitmask::{bitmask_chunks, chunk_vals_spec, chunk_boundary_bits,
    chunk_boundary_bits_spec};
use crate::errors::ApkError;
use crate::fsrng::{simple_fiat_shamir_rng, fs_rng_pad};

verus! {

/// The challenges the verifier re-derives from the transcript.
pub struct Challenges {
    pub r: Fe,
    pub phi: Fe,
    pub zeta: Fe,
    pub nus: Vec<Fe>,
}

impl Challenges {
    pub open spec fn wf(self) -> bool {
        self.r.wf() && self.phi.wf() && self.zeta.wf() && (forall|i: int|
            0 <= i < self.nus@.len() ==> (#[trigger] self.nus@[i]).wf())
    }
}

/// The transcript contents once the public input and the first-round
/// commitments are absorbed.
pub open spec fn buf_r<PI: PublicInput>(t0: Seq<u8>, pi: PI, p: Proof) -> Seq<u8> {
    t0 + lbl_public_input() + pi.bytes_spec() + lbl_register_commitments() + comms_bytes(
        p.register_commitments@,
    )
}

/// The transcript contents once the second-round commitments are absorbed.
pub open spec fn buf_phi<PI: PublicInput>(t0: Seq<u8>, pi: PI, p: Proof) -> Seq<u8> {
    buf_r(t0, pi, p) + lbl_bitmask_aggregation() + lbl_second_round_register_commitments()
        + comms_bytes(p.additional_commitments@)
}

/// The transcript contents once the quotient commitment is absorbed.
pub open spec fn buf_zeta<PI: PublicInput>(t0: Seq<u8>, pi: PI, p: Proof) -> Seq<u8> {
    buf_phi(t0, pi, p) + lbl_constraints_aggregation() + lbl_quotient() + p.q_comm.bytes@
}

/// The transcript contents once the evaluations are absorbed.
pub open spec fn buf_nus<PI: PublicInput>(t0: Seq<u8>, pi: PI, p: Proof) -> Seq<u8> {
    buf_zeta(t0, pi, p) + lbl_evaluation_point() + lbl_register_evaluations() + fes_bytes(
        p.register_evaluations@,
    ) + lbl_quotient_evaluation() + p.q_zeta.bytes@ + lbl_shifted_linearization_evaluation()
        + p.r_zeta_omega.bytes@
}

/// The evaluation point, re-derived from public data alone.
pub open spec fn zeta_val_of<PI: PublicInput>(t0: Seq<u8>, pi: PI, p: Proof) -> nat {
    challenge_val(buf_zeta(t0, pi, p), lbl_evaluation_point())
}

/// The constraint-aggregation challenge, re-derived from public data alone.
pub open spec fn phi_val_of<PI: PublicInput>(t0: Seq<u8>, pi: PI, p: Proof) -> nat {
    challenge_val(buf_phi(t0, pi, p), lbl_constraints_aggregation())
}

/// The chunk-aggregation challenge, re-derived from public data alone.
pub open spec fn r_val_of<PI: PublicInput>(t0: Seq<u8>, pi: PI, p: Proof) -> nat {
    challenge_val(buf_r(t0, pi, p), lbl_bitmask_aggregation())
}

/// The opening-batching challenges, re-derived from public data alone.
pub open spec fn nus_vals_of<PI: PublicInput>(t0: Seq<u8>, pi: PI, p: Proof, n: nat) -> Seq<
    nat,
> {
    Seq::new(
        n,
        |i: int|
            challenge_val(
                buf_nus(t0, pi, p) + rep_bytes(lbl_kzg_aggregation(), i as nat),
                lbl_kzg_aggregation(),
            ),
    )
}

/// The stream-drawn opening coefficient, re-derived from public data alone.
pub open spec fn coeff2_val_of<PI: PublicInput>(t0: Seq<u8>, pi: PI, p: Proof, n: nat) -> nat {
    stream_coeff_of(buf_nus(t0, pi, p) + rep_bytes(lbl_kzg_aggregation(), n) + fs_rng_pad())
}

/// The challenges as a pure function of the verifier's state, the public
/// input and the proof: what the fixed transcript walk yields.
pub open spec fn challenges_match<PI: PublicInput>(
    c: Challenges,
    t0: Seq<u8>,
    pi: PI,
    p: Proof,
    n: nat,
) -> bool {
    &&& c.wf()
    &&& c.r.val() == r_val_of(t0, pi, p)
    &&& c.phi.val() == phi_val_of(t0, pi, p)
    &&& c.zeta.val() == zeta_val_of(t0, pi, p)
    &&& c.nus@.len() == n
    &&& vals_of(c.nus@) == nus_vals_of(t0, pi, p, n)
}

/// Whether every curve-point encoding that verification touches is valid.
pub open spec fn points_ok(vk: RawKzgVk, kc: KeysetCommitment, p: Proof) -> bool {
    &&& g1_bytes_ok(kc.pks_x_comm.bytes@)
    &&& g1_bytes_ok(kc.pks_y_comm.bytes@)
    &&& (forall|i: int|
        0 <= i < p.register_commitments@.len() ==> g1_bytes_ok(
            #[trigger] p.register_commitments@[i].bytes@,
        ))
    &&& (forall|i: int|
        0 <= i < p.additional_commitments@.len() ==> g1_bytes_ok(
            #[trigger] p.additional_commitments@[i].bytes@,
        ))
    &&& g1_bytes_ok(p.q_comm.bytes@)
    &&& g1_bytes_ok(p.w_at_zeta_proof.bytes@)
    &&& g1_bytes_ok(p.r_at_zeta_omega_proof.bytes@)
    &&& g1_bytes_ok(vk.g1.bytes@)
    &&& g2_bytes_ok(vk.g2.bytes@)
    &&& g2_bytes_ok(vk.tau_in_g2.bytes@)
}

/// Whether the evaluation-side validation accepts, as a pure function of
/// the inputs: the linearization commitment is the named combination of
/// the register commitments with `lin_vals`, the claim at the evaluation
/// point aggregates the keyset, register and quotient commitments against
/// the claimed values under `nu_vals`, and the two openings, folded with
/// coefficients one and `c2`, must pass the batched opening check.
#[verifier::opaque]
pub open spec fn validate_accept_spec(
    v: Verifier,
    p: Proof,
    lin_vals: Seq<nat>,
    nu_vals: Seq<nat>,
    zeta: nat,
    zw: nat,
    c2: nat,
) -> bool {
    let reg_add = comms_views(p.register_commitments@) + comms_views(
        p.additional_commitments@,
    );
    let r_comm = msm_of(reg_add, lin_vals);
    let agg = seq![v.pks_comm.pks_x_comm.bytes@, v.pks_comm.pks_y_comm.bytes@] + reg_add
        + seq![p.q_comm.bytes@];
    let w_comm = msm_of(agg, nu_vals);
    let w_at = dot_mod(nu_vals, vals_of(p.register_evaluations@) + seq![p.q_zeta.val()]);
    kzg_accept_spec(
        v.kzg_vk,
        w_comm,
        zeta,
        w_at,
        p.w_at_zeta_proof.bytes@,
        r_comm,
        zw,
        p.r_zeta_omega.val(),
        p.r_at_zeta_omega_proof.bytes@,
        c2,
    )
}

/// Checks that every commitment in the list is a valid point encoding.
fn check_points(comms: &Vec<G1C>) -> (r: bool)
    requires
        forall|i: int| 0 <= i < comms@.len() ==> (#[trigger] comms@[i]).wf(),
    ensures
        r == (forall|i: int| 0 <= i < comms@.len() ==> g1_bytes_ok(#[trigger] comms@[i].bytes@)),
{
    let n = comms.len();
    let mut i: usize = 0;
    while i < n
        invariant
            i <= n,
            n == comms@.len(),
            forall|j: int| 0 <= j < n ==> (#[trigger] comms@[j]).wf(),
            forall|j: int| 0 <= j < i ==> g1_bytes_ok(#[trigger] comms@[j].bytes@),
        decreases n - i,
    {
        if !g1_is_valid(&comms[i]) {
            return false;
        }
        i += 1;
    }
    true
}

/// The modular dot product of two equal-length value sequences.
pub open spec fn dot_mod(a: Seq<nat>, b: Seq<nat>) -> nat
    decreases a.len(),
{
    if a.len() == 0 || b.len() == 0 {
        0
    } else {
        fadd(dot_mod(a.drop_last(), b.drop_last()), fmul(a.last(), b.last()))
    }
}

/// The dot product of two coefficient vectors in the field.
fn dot_fes(a: &Vec<Fe>, b: &Vec<Fe>) -> (r: Fe)
    requires
        a@.len() == b@.len(),
        forall|i: int| 0 <= i < a@.len() ==> (#[trigger] a@[i]).wf(),
        forall|i: int| 0 <= i < b@.len() ==> (#[trigger] b@[i]).wf(),
    ensures
        r.wf(),
        r.val() == dot_mod(vals_of(a@), vals_of(b@)),
{
    let n = a.len();
    let mut acc = fe_zero();
    let mut i: usize = 0;
    proof {
        assert(vals_of(a@).take(0) =~= Seq::<nat>::empty());
        assert(dot_mod(vals_of(a@).take(0), vals_of(b@).take(0)) == 0);
    }
    while i < n
        invariant
            i <= n,
            n == a@.len(),
            n == b@.len(),
            acc.wf(),
            forall|j: int| 0 <= j < n ==> (#[trigger] a@[j]).wf(),
            forall|j: int| 0 <= j < n ==> (#[trigger] b@[j]).wf(),
            acc.val() == dot_mod(vals_of(a@).take(i as int), vals_of(b@).take(i as int)),
        decreases n - i,
    {
        let term = fr_mul(&a[i], &b[i]);
        acc = fr_add(&acc, &term);
        proof {
            let av = vals_of(a@);
            let bv = vals_of(b@);
            assert(av.take(i + 1 as int).drop_last() =~= av.take(i as int));
            assert(bv.take(i + 1 as int).drop_last() =~= bv.take(i as int));
            assert(av.take(i + 1 as int).last() == a@[i as int].val());
            assert(bv.take(i + 1 as int).last() == b@[i as int].val());
        }
        i += 1;
    }
    proof {
        assert(vals_of(a@).take(n as int) =~= vals_of(a@));
        assert(vals_of(b@).take(n as int) =~= vals_of(b@));
    }
    acc
}

/// A verifier instance: immutable once built, shareable across proofs.
pub struct Verifier {
    pub domain: Domain,
    pub kzg_vk: RawKzgVk,
    pub pks_comm: KeysetCommitment,
    pub preprocessed_transcript: SimpleTranscript,
}

impl Verifier {
    pub open spec fn wf(self) -> bool {
        &&& self.domain.wf()
        &&& self.kzg_vk.wf()
        &&& self.pks_comm.wf()
        &&& self.pks_comm.log_domain_size == self.domain.log_size
    }

    /// Builds a verifier: constructs and checks the domain named by the
    /// keyset commitment and preprocesses the protocol parameters into the
    /// transcript. Succeeds exactly on the supported log-sizes.
    pub fn new(
        kzg_vk: RawKzgVk,
        pks_comm: KeysetCommitment,
        empty_transcript: SimpleTranscript,
    ) -> (r: Result<Verifier, ApkError>)
        requires
            kzg_vk.wf(),
            pks_comm.wf(),
        ensures
            r is Ok <==> 1 <= pks_comm.log_domain_size
                <= crate::domain::MAX_LOG_DOMAIN_SIZE,
            r is Err ==> r->Err_0 == ApkError::UnsupportedDomainSize,
            r is Ok ==> ({
                let v = r->Ok_0;
                &&& v.wf()
                &&& v.kzg_vk == kzg_vk
                &&& v.pks_comm == pks_comm
                &&& v.preprocessed_transcript@ == empty_transcript@ + lbl_domain()
                    + v.domain.bytes_spec() + lbl_vk() + kzg_vk.bytes_spec()
                    + lbl_keyset_commitment() + pks_comm.bytes_spec()
            }),
    {
        let domain = match Domain::new(pks_comm.log_domain_size) {
            Err(e) => {
                return Err(e);
            },
            Ok(d) => d,
        };
        let mut transcript = empty_transcript;
        transcript.set_protocol_params(&domain, &kzg_vk);
        transcript.set_keyset_commitment(&pks_comm);
        Ok(Verifier { domain, kzg_vk, pks_comm, preprocessed_transcript: transcript })
    }

    /// Walks the transcript in the fixed order over the public input and
    /// the proof, and returns the challenges together with the
    /// deterministic opening-coefficient stream.
    fn restore_challenges<PI: PublicInput>(
        &self,
        public_input: &PI,
        proof: &Proof,
        batch_size: usize,
    ) -> (r: (Challenges, SimpleTranscriptRng))
        requires
            public_input.wf_spec(),
        ensures
            challenges_match(
                r.0,
                self.preprocessed_transcript@,
                *public_input,
                *proof,
                batch_size as nat,
            ),
            r.1.transcript@ == buf_nus(self.preprocessed_transcript@, *public_input, *proof)
                + rep_bytes(lbl_kzg_aggregation(), batch_size as nat) + fs_rng_pad(),
    {
        let mut transcript = self.preprocessed_transcript.duplicate();
        transcript.append_public_input(public_input);
        transcript.append_register_commitments(&proof.register_commitments);
        let r = transcript.get_bitmask_aggregation_challenge();
        transcript.append_2nd_round_register_commitments(&proof.additional_commitments);
        let phi = transcript.get_constraints_aggregation_challenge();
        transcript.append_quotient_commitment(&proof.q_comm);
        let zeta = transcript.get_evaluation_point();
        transcript.append_evaluations(
            &proof.register_evaluations,
            &proof.q_zeta,
            &proof.r_zeta_omega,
        );
        let nus = transcript.get_kzg_aggregation_challenges(batch_size);
        let rng = simple_fiat_shamir_rng(&mut transcript);
        proof {
            assert(vals_of(nus@) =~= nus_vals_of(
                self.preprocessed_transcript@,
                *public_input,
                *proof,
                batch_size as nat,
            ));
        }
        (Challenges { r, phi, zeta, nus }, rng)
    }

    /// Rebuilds the linearization commitment from the register commitments
    /// with the given scalars, aggregates the opening claims at the
    /// evaluation point by the batching challenges, draws the folding
    /// coefficient from the stream, and decides the batched opening check.
    /// Fails exactly when some point encoding is invalid; an `Ok` verdict
    /// equals the named outcome `validate_accept_spec`.
    #[verifier::rlimit(100)]
    fn validate_evaluations(
        &self,
        proof: &Proof,
        lin_scalars: &Vec<Fe>,
        challenges: &Challenges,
        fsrng: &mut SimpleTranscriptRng,
        evals_at_zeta: &LagrangeEvaluations,
    ) -> (r: Result<bool, ApkError>)
        requires
            self.wf(),
            proof.wf(),
            challenges.wf(),
            evals_at_zeta.wf(),
            lin_scalars@.len() == proof.register_commitments@.len()
                + proof.additional_commitments@.len(),
            lin_scalars@.len() >= 1,
            forall|i: int| 0 <= i < lin_scalars@.len() ==> (#[trigger] lin_scalars@[i]).wf(),
            challenges.nus@.len() == 3 + proof.register_commitments@.len()
                + proof.additional_commitments@.len(),
            proof.register_evaluations@.len() + 2 == proof.register_commitments@.len()
                + proof.additional_commitments@.len() + 4,
        ensures
            r is Err <==> !points_ok(self.kzg_vk, self.pks_comm, *proof),
            r is Err ==> r->Err_0 == ApkError::BadPointEncoding,
            r is Ok ==> r->Ok_0 == validate_accept_spec(
                *self,
                *proof,
                vals_of(lin_scalars@),
                vals_of(challenges.nus@),
                challenges.zeta.val(),
                evals_at_zeta.zeta_omega.val(),
                stream_coeff_of(old(fsrng).transcript@),
            ),
    {
        if !g1_is_valid(&self.pks_comm.pks_x_comm) {
            return Err(ApkError::BadPointEncoding);
        }
        if !g1_is_valid(&self.pks_comm.pks_y_comm) {
            return Err(ApkError::BadPointEncoding);
        }
        if !check_points(&proof.register_commitments) {
            return Err(ApkError::BadPointEncoding);
        }
        if !check_points(&proof.additional_commitments) {
            return Err(ApkError::BadPointEncoding);
        }
        if !g1_is_valid(&proof.q_comm) {
            return Err(ApkError::BadPointEncoding);
        }
        if !g1_is_valid(&proof.w_at_zeta_proof) {
            return Err(ApkError::BadPointEncoding);
        }
        if !g1_is_valid(&proof.r_at_zeta_omega_proof) {
            return Err(ApkError::BadPointEncoding);
        }
        if !g1_is_valid(&self.kzg_vk.g1) {
            return Err(ApkError::BadPointEncoding);
        }
        if !crate::points::g2_is_valid(&self.kzg_vk.g2) {
            return Err(ApkError::BadPointEncoding);
        }
        if !crate::points::g2_is_valid(&self.kzg_vk.tau_in_g2) {
            return Err(ApkError::BadPointEncoding);
        }
        // The register and second-round commitments, in aggregation order.
        let mut reg_add: Vec<G1C> = Vec::new();
        append_comm_copies(&mut reg_add, &proof.register_commitments);
        append_comm_copies(&mut reg_add, &proof.additional_commitments);
        let ghost rc = proof.register_commitments@.len() as int;
        let ghost ac = proof.additional_commitments@.len() as int;
        proof {
            assert(comms_views(reg_add@) =~= comms_views(proof.register_commitments@)
                + comms_views(proof.additional_commitments@));
            assert forall|j: int| 0 <= j < reg_add@.len() implies (#[trigger] reg_add@[j]).wf()
                && g1_bytes_ok(reg_add@[j].bytes@) by {
                assert(comms_views(reg_add@)[j] == reg_add@[j].bytes@);
                if j < rc {
                    assert(comms_views(proof.register_commitments@)[j]
                        == proof.register_commitments@[j].bytes@);
                } else {
                    assert(comms_views(proof.additional_commitments@)[j - rc]
                        == proof.additional_commitments@[j - rc].bytes@);
                }
            }
        }
        // The linearization commitment, rebuilt homomorphically.
        let r_comm = g1_linear_combination(&reg_add, lin_scalars);
        // The aggregated claim at the evaluation point.
        let mut agg_pts: Vec<G1C> = Vec::new();
        agg_pts.push(g1c_dup(&self.pks_comm.pks_x_comm));
        agg_pts.push(g1c_dup(&self.pks_comm.pks_y_comm));
        proof {
            assert(comms_views(agg_pts@) =~= seq![
                self.pks_comm.pks_x_comm.bytes@,
                self.pks_comm.pks_y_comm.bytes@,
            ]);
        }
        append_comm_copies(&mut agg_pts, &reg_add);
        let ghost agg_mid = agg_pts@;
        agg_pts.push(g1c_dup(&proof.q_comm));
        proof {
            assert(comms_views(agg_pts@) =~= comms_views(agg_mid).push(proof.q_comm.bytes@));
            assert(comms_views(agg_pts@) =~= seq![
                self.pks_comm.pks_x_comm.bytes@,
                self.pks_comm.pks_y_comm.bytes@,
            ] + comms_views(reg_add@) + seq![proof.q_comm.bytes@]);
            assert forall|j: int| 0 <= j < agg_pts@.len() implies (#[trigger] agg_pts@[j]).wf()
                && g1_bytes_ok(agg_pts@[j].bytes@) by {
                assert(comms_views(agg_pts@)[j] == agg_pts@[j].bytes@);
                if 2 <= j < 2 + rc + ac {
                    assert(comms_views(reg_add@)[j - 2] == reg_add@[j - 2].bytes@);
                }
            }
        }
        let mut agg_vals: Vec<Fe> = Vec::new();
        let ec = proof.register_evaluations.len();
        let mut i: usize = 0;
        while i < ec
            invariant
                i <= ec,
                ec == proof.register_evaluations@.len(),
                proof.wf(),
                agg_vals@.len() == i,
                forall|j: int| 0 <= j < i ==> (#[trigger] agg_vals@[j]).wf(),
                forall|j: int|
                    0 <= j < i ==> (#[trigger] agg_vals@[j]).val()
                        == proof.register_evaluations@[j].val(),
            decreases ec - i,
        {
            let e = fe_dup(&proof.register_evaluations[i]);
            agg_vals.push(e);
            i += 1;
        }
        agg_vals.push(fe_dup(&proof.q_zeta));
        proof {
            assert(vals_of(agg_vals@) =~= vals_of(proof.register_evaluations@)
                + seq![proof.q_zeta.val()]);
        }
        let w_comm = g1_linear_combination(&agg_pts, &challenges.nus);
        let w_at_zeta = dot_fes(&challenges.nus, &agg_vals);
        // The stream-drawn coefficient folding the shifted claim in.
        let coeff2 = fsrng.next_u128_fe();
        let verdict = match kzg_batch_verify(
            &self.kzg_vk,
            &w_comm,
            &challenges.zeta,
            &w_at_zeta,
            &proof.w_at_zeta_proof,
            &r_comm,
            &evals_at_zeta.zeta_omega,
            &proof.r_zeta_omega,
            &proof.r_at_zeta_omega_proof,
            &coeff2,
        ) {
            Err(e) => {
                return Err(e);
            },
            Ok(b) => b,
        };
        proof {
            assert(verdict == validate_accept_spec(
                *self,
                *proof,
                vals_of(lin_scalars@),
                vals_of(challenges.nus@),
                challenges.zeta.val(),
                evals_at_zeta.zeta_omega.val(),
                stream_coeff_of(old(fsrng).transcript@),
            )) by {
                reveal(validate_accept_spec);
            }
        }
        Ok(verdict)
    }
}

/// Appends owned copies of all commitments of `src` to `dst`.
fn append_comm_copies(dst: &mut Vec<G1C>, src: &Vec<G1C>)
    ensures
        comms_views(final(dst)@) == comms_views(old(dst)@) + comms_views(src@),
{
    let n = src.len();
    let mut i: usize = 0;
    proof {
        assert(comms_views(dst@) =~= comms_views(old(dst)@) + comms_views(src@.take(0)));
    }
    while i < n
        invariant
            i <= n,
            n == src@.len(),
            comms_views(dst@) == comms_views(old(dst)@) + comms_views(src@.take(i as int)),
        decreases n - i,
    {
        let c = g1c_dup(&src[i]);
        let ghost prev = dst@;
        dst.push(c);
        proof {
            assert(comms_views(dst@) =~= comms_views(prev).push(src@[i as int].bytes@));
            assert(comms_views(src@.take(i + 1 as int)) =~= comms_views(
                src@.take(i as int),
            ).push(src@[i as int].bytes@));
            assert(comms_views(old(dst)@) + comms_views(src@.take(i + 1 as int)) =~= (
            comms_views(old(dst)@) + comms_views(src@.take(i as int))).push(
                src@[i as int].bytes@,
            ));
        }
        i += 1;
    }
    proof {
        assert(comms_views(src@.take(n as int)) =~= comms_views(src@));
        assert(comms_views(dst@) =~= comms_views(old(dst)@) + comms_views(src@));
    }
}

/// The challenge hits one or the last domain element, so a needed inverse
/// does not exist.
pub open spec fn degenerate_point(z: nat, d: Domain) -> bool {
    fsub(z, d.group_gen_inv.val()) == 0 || fsub(z, 1) == 0
}

/// The challenge hits the domain element of a set bit, so a barycentric
/// weight has no inverse (basic scheme only).
pub open spec fn degenerate_for_bitmask(z: nat, d: Domain, bits: Seq<bool>) -> bool {
    exists|i: int|
        0 <= i < bits.len() && bits[i] && fsub(z, #[trigger] fr_pow(d.group_gen.val(), i as nat))
            == 0
}

/// The public polynomial identity of the basic scheme, as a pure function
/// of the verifier state, the public input and the proof: the shifted
/// linearization evaluation plus the `phi`-combined constraint values must
/// equal the quotient evaluation times the vanishing polynomial.
#[verifier::opaque]
pub open spec fn basic_identity(v: Verifier, pi: AccountablePublicInput, p: Proof) -> bool {
    let t0 = v.preprocessed_transcript@;
    let d = v.domain;
    let z = zeta_val_of(t0, pi, p);
    let phi = phi_val_of(t0, pi, p);
    let ev = p.register_evaluations@;
    let b = bary_eval_of(z, d, pi.bitmask@);
    let cv = core_constraint_vals(
        not_last_of(z, d),
        l_first_of(z, d),
        l_last_of(z, d),
        b,
        ev[2].val(),
        ev[3].val(),
        ev[0].val(),
        ev[1].val(),
        pi.apk.x.val(),
        pi.apk.y.val(),
    );
    fadd(p.r_zeta_omega.val(), horner_spec(cv, phi)) == fmul(p.q_zeta.val(), van_of(z, d))
}

/// The linearization scalars of the basic scheme, as values.
#[verifier::opaque]
pub open spec fn basic_lin_vals(v: Verifier, pi: AccountablePublicInput, p: Proof) -> Seq<nat> {
    let t0 = v.preprocessed_transcript@;
    let d = v.domain;
    let z = zeta_val_of(t0, pi, p);
    let phi = phi_val_of(t0, pi, p);
    let ev = p.register_evaluations@;
    let b = bary_eval_of(z, d, pi.bitmask@);
    seq![
        lin_sx_spec(not_last_of(z, d), phi, b, ev[2].val(), ev[3].val(), ev[0].val(), ev[1].val()),
        lin_sy_spec(not_last_of(z, d), phi, b, ev[2].val(), ev[0].val()),
    ]
}

/// Whether the basic scheme's batched opening check accepts.
#[verifier::opaque]
pub open spec fn basic_accept(v: Verifier, pi: AccountablePublicInput, p: Proof) -> bool {
    let t0 = v.preprocessed_transcript@;
    let z = zeta_val_of(t0, pi, p);
    validate_accept_spec(
        v,
        p,
        basic_lin_vals(v, pi, p),
        nus_vals_of(t0, pi, p, 5),
        z,
        fmul(z, v.domain.group_gen.val()),
        coeff2_val_of(t0, pi, p, 5),
    )
}

/// The complete verdict of the basic scheme: the degenerate challenges,
/// the seed-colliding key and the invalid encodings are rejected with
/// their errors, in that order; otherwise the result is the conjunction
/// of the batched opening check and the polynomial identity.
pub open spec fn basic_verdict(v: Verifier, pi: AccountablePublicInput, p: Proof) -> Result<
    bool,
    ApkError,
> {
    let t0 = v.preprocessed_transcript@;
    let z = zeta_val_of(t0, pi, p);
    if degenerate_point(z, v.domain) || degenerate_for_bitmask(z, v.domain, pi.bitmask@) {
        Err(ApkError::DegenerateChallenge)
    } else if pi.apk.x.val() == 0 {
        Err(ApkError::BadPublicKey)
    } else if !points_ok(v.kzg_vk, v.pks_comm, p) {
        Err(ApkError::BadPointEncoding)
    } else {
        Ok(basic_accept(v, pi, p) && basic_identity(v, pi, p))
    }
}

/// The public polynomial identity of the packed scheme: the core
/// constraints, the chunk-accumulation pair — with the aggregated bitmask
/// value recomputed from the public bitmask under the re-derived
/// chunk-aggregation challenge — and the chunk-pattern pair that binds
/// the committed pattern register to the public chunk structure.
#[verifier::opaque]
pub open spec fn packed_identity(v: Verifier, pi: AccountablePublicInput, p: Proof) -> bool {
    let t0 = v.preprocessed_transcript@;
    let d = v.domain;
    let z = zeta_val_of(t0, pi, p);
    let phi = phi_val_of(t0, pi, p);
    let rch = r_val_of(t0, pi, p);
    let ev = p.register_evaluations@;
    let b_agg = horner_spec(chunk_vals_spec(pi.bitmask@), rch);
    let s = bary_eval_of(z, d, chunk_boundary_bits_spec(d.size as nat));
    let step = chunk_step_spec(rch, s);
    let cv = core_constraint_vals(
        not_last_of(z, d),
        l_first_of(z, d),
        l_last_of(z, d),
        ev[2].val(),
        ev[3].val(),
        ev[4].val(),
        ev[0].val(),
        ev[1].val(),
        pi.apk.x.val(),
        pi.apk.y.val(),
    ) + seq![
        a6_packed_spec(not_last_of(z, d), ev[2].val(), ev[5].val(), ev[6].val()),
        a7_packed_spec(l_first_of(z, d), l_last_of(z, d), ev[6].val(), b_agg),
        a8_packed_spec(not_last_of(z, d), ev[5].val(), step),
        a9_packed_spec(l_first_of(z, d), ev[5].val()),
    ];
    fadd(p.r_zeta_omega.val(), horner_spec(cv, phi)) == fmul(p.q_zeta.val(), van_of(z, d))
}

/// The linearization scalars of the packed scheme, as values: the bitmask
/// commitment takes no next-row term, the chunk-pattern and accumulator
/// commitments take theirs from the recurrences they close.
#[verifier::opaque]
pub open spec fn packed_lin_vals(v: Verifier, pi: AccountablePublicInput, p: Proof) -> Seq<
    nat,
> {
    let t0 = v.preprocessed_transcript@;
    let d = v.domain;
    let z = zeta_val_of(t0, pi, p);
    let phi = phi_val_of(t0, pi, p);
    let ev = p.register_evaluations@;
    seq![
        0nat,
        lin_sx_spec(
            not_last_of(z, d),
            phi,
            ev[2].val(),
            ev[3].val(),
            ev[4].val(),
            ev[0].val(),
            ev[1].val(),
        ),
        lin_sy_spec(not_last_of(z, d), phi, ev[2].val(), ev[3].val(), ev[0].val()),
        lin_c_spec(not_last_of(z, d), phi),
        lin_acc_spec(not_last_of(z, d), phi),
    ]
}

/// Whether the packed scheme's batched opening check accepts. Opaque:
/// the verdict reasons with it as a value and reveals it only where the
/// check is actually decided.
#[verifier::opaque]
pub open spec fn packed_accept(v: Verifier, pi: AccountablePublicInput, p: Proof) -> bool {
    let t0 = v.preprocessed_transcript@;
    let z = zeta_val_of(t0, pi, p);
    validate_accept_spec(
        v,
        p,
        packed_lin_vals(v, pi, p),
        nus_vals_of(t0, pi, p, 8),
        z,
        fmul(z, v.domain.group_gen.val()),
        coeff2_val_of(t0, pi, p, 8),
    )
}

/// The complete verdict of the packed scheme.
pub open spec fn packed_verdict(v: Verifier, pi: AccountablePublicInput, p: Proof) -> Result<
    bool,
    ApkError,
> {
    let t0 = v.preprocessed_transcript@;
    let z = zeta_val_of(t0, pi, p);
    if degenerate_point(z, v.domain) || degenerate_for_bitmask(
        z,
        v.domain,
        chunk_boundary_bits_spec(v.domain.size as nat),
    ) {
        Err(ApkError::DegenerateChallenge)
    } else if pi.apk.x.val() == 0 {
        Err(ApkError::BadPublicKey)
    } else if !points_ok(v.kzg_vk, v.pks_comm, p) {
        Err(ApkError::BadPointEncoding)
    } else {
        Ok(packed_accept(v, pi, p) && packed_identity(v, pi, p))
    }
}

/// The public polynomial identity of the counting scheme: the core
/// constraints plus the counter recurrence and its boundary against the
/// public count.
#[verifier::opaque]
pub open spec fn counting_identity(v: Verifier, pi: CountingPublicInput, p: Proof) -> bool {
    let t0 = v.preprocessed_transcript@;
    let d = v.domain;
    let z = zeta_val_of(t0, pi, p);
    let phi = phi_val_of(t0, pi, p);
    let ev = p.register_evaluations@;
    let cv = core_constraint_vals(
        not_last_of(z, d),
        l_first_of(z, d),
        l_last_of(z, d),
        ev[2].val(),
        ev[3].val(),
        ev[4].val(),
        ev[0].val(),
        ev[1].val(),
        pi.apk.x.val(),
        pi.apk.y.val(),
    ) + seq![
        a6_counting_spec(not_last_of(z, d), ev[2].val(), ev[5].val()),
        a7_counting_spec(
            l_first_of(z, d),
            l_last_of(z, d),
            ev[5].val(),
            (pi.count as nat) % crate::fe::fr_order(),
        ),
    ];
    fadd(p.r_zeta_omega.val(), horner_spec(cv, phi)) == fmul(p.q_zeta.val(), van_of(z, d))
}

/// The linearization scalars of the counting scheme, as values.
#[verifier::opaque]
pub open spec fn counting_lin_vals(v: Verifier, pi: CountingPublicInput, p: Proof) -> Seq<
    nat,
> {
    let t0 = v.preprocessed_transcript@;
    let d = v.domain;
    let z = zeta_val_of(t0, pi, p);
    let phi = phi_val_of(t0, pi, p);
    let ev = p.register_evaluations@;
    seq![
        0nat,
        lin_sx_spec(
            not_last_of(z, d),
            phi,
            ev[2].val(),
            ev[3].val(),
            ev[4].val(),
            ev[0].val(),
            ev[1].val(),
        ),
        lin_sy_spec(not_last_of(z, d), phi, ev[2].val(), ev[3].val(), ev[0].val()),
        lin_acc_spec(not_last_of(z, d), phi),
    ]
}

/// Whether the counting scheme's batched opening check accepts.
#[verifier::opaque]
pub open spec fn counting_accept(v: Verifier, pi: CountingPublicInput, p: Proof) -> bool {
    let t0 = v.preprocessed_transcript@;
    let z = zeta_val_of(t0, pi, p);
    validate_accept_spec(
        v,
        p,
        counting_lin_vals(v, pi, p),
        nus_vals_of(t0, pi, p, 7),
        z,
        fmul(z, v.domain.group_gen.val()),
        coeff2_val_of(t0, pi, p, 7),
    )
}

/// The complete verdict of the counting scheme; a zero count is rejected
/// before anything else is looked at.
pub open spec fn counting_verdict(v: Verifier, pi: CountingPublicInput, p: Proof) -> Result<
    bool,
    ApkError,
> {
    let t0 = v.preprocessed_transcript@;
    let z = zeta_val_of(t0, pi, p);
    if pi.count == 0 {
        Err(ApkError::ZeroParticipants)
    } else if degenerate_point(z, v.domain) {
        Err(ApkError::DegenerateChallenge)
    } else if pi.apk.x.val() == 0 {
        Err(ApkError::BadPublicKey)
    } else if !points_ok(v.kzg_vk, v.pks_comm, p) {
        Err(ApkError::BadPointEncoding)
    } else {
        Ok(counting_accept(v, pi, p) && counting_identity(v, pi, p))
    }
}


/// Assembles the packed scheme's constraint values and linearization
/// scalars from the register evaluations, the recomputed public values
/// and the evaluation-point data. Fails exactly when the aggregate key
/// collides with the seed point.
#[verifier::rlimit(100)]
fn packed_constraint_values(
    core: &CoreEvals,
    c_ev: &Fe,
    acc_ev: &Fe,
    b_agg: &Fe,
    step: &Fe,
    apk: &AffG1,
    phi: &Fe,
    ls: &LagrangeEvaluations,
) -> (r: Result<(Vec<Fe>, Vec<Fe>), ApkError>)
    requires
        core.wf(),
        c_ev.wf(),
        acc_ev.wf(),
        b_agg.wf(),
        step.wf(),
        apk.wf(),
        phi.wf(),
        ls.wf(),
    ensures
        r is Ok <==> apk.x.val() != 0,
        r is Err ==> r->Err_0 == ApkError::BadPublicKey,
        r is Ok ==> ({
            let (cons, lin) = r->Ok_0;
            &&& cons@.len() == 9
            &&& lin@.len() == 5
            &&& (forall|i: int| 0 <= i < cons@.len() ==> (#[trigger] cons@[i]).wf())
            &&& (forall|i: int| 0 <= i < lin@.len() ==> (#[trigger] lin@[i]).wf())
            &&& vals_of(cons@) == core_constraint_vals(
                ls.not_last.val(),
                ls.l_first.val(),
                ls.l_last.val(),
                core.b.val(),
                core.sx.val(),
                core.sy.val(),
                core.kx.val(),
                core.ky.val(),
                apk.x.val(),
                apk.y.val(),
            ) + seq![
                a6_packed_spec(ls.not_last.val(), core.b.val(), c_ev.val(), acc_ev.val()),
                a7_packed_spec(ls.l_first.val(), ls.l_last.val(), acc_ev.val(), b_agg.val()),
                a8_packed_spec(ls.not_last.val(), c_ev.val(), step.val()),
                a9_packed_spec(ls.l_first.val(), c_ev.val()),
            ]
            &&& vals_of(lin@) == seq![
                0nat,
                lin_sx_spec(
                    ls.not_last.val(),
                    phi.val(),
                    core.b.val(),
                    core.sx.val(),
                    core.sy.val(),
                    core.kx.val(),
                    core.ky.val(),
                ),
                lin_sy_spec(
                    ls.not_last.val(),
                    phi.val(),
                    core.b.val(),
                    core.sx.val(),
                    core.kx.val(),
                ),
                lin_c_spec(ls.not_last.val(), phi.val()),
                lin_acc_spec(ls.not_last.val(), phi.val()),
            ]
        }),
{
    let mut constraints = match evaluate_core_constraints(core, apk, ls) {
        Err(e) => {
            return Err(e);
        },
        Ok(v) => v,
    };
    let (a6, a7) = evaluate_packed_extra(&core.b, c_ev, acc_ev, b_agg, ls);
    let (a8, a9) = evaluate_packed_chunk_constraints(c_ev, step, ls);
    let ghost cv5 = vals_of(constraints@);
    constraints.push(a6);
    constraints.push(a7);
    constraints.push(a8);
    constraints.push(a9);
    proof {
        assert(vals_of(constraints@) =~= cv5 + seq![a6.val(), a7.val(), a8.val(), a9.val()]);
    }
    let (lin_sx, lin_sy) = linearization_scalars_core(core, phi, ls);
    let lin_c = linearization_scalar_c(phi, ls);
    let lin_acc = linearization_scalar_acc(phi, ls);
    let mut lin_scalars: Vec<Fe> = Vec::new();
    lin_scalars.push(fe_zero());
    lin_scalars.push(lin_sx);
    lin_scalars.push(lin_sy);
    lin_scalars.push(lin_c);
    lin_scalars.push(lin_acc);
    proof {
        assert(vals_of(lin_scalars@) =~= seq![
            0nat,
            lin_sx.val(),
            lin_sy.val(),
            lin_c.val(),
            lin_acc.val(),
        ]);
    }
    Ok((constraints, lin_scalars))
}

impl Verifier {
    /// Verifies a basic-scheme proof against an accountable public input:
    /// the result equals the verdict function of the verifier state, the
    /// public input and the proof.
    #[verifier::rlimit(100)]
    pub fn verify_simple(&self, public_input: &AccountablePublicInput, proof: &Proof) -> (r:
        Result<bool, ApkError>)
        requires
            self.wf(),
            public_input.wf_spec(),
            proof.wf(),
            proof.scheme == Scheme::Basic,
            public_input.bitmask@.len() < self.domain.size,
        ensures
            r == basic_verdict(*self, *public_input, *proof),
    {
        let (challenges, mut fsrng) = self.restore_challenges(public_input, proof, 5);
        let evals_at_zeta = match lagrange_evaluations(&challenges.zeta, &self.domain) {
            Err(e) => {
                return Err(e);
            },
            Ok(l) => l,
        };
        let b_at_zeta = match barycentric_eval_binary_at(
            &challenges.zeta,
            &public_input.bitmask,
            &self.domain,
        ) {
            Err(e) => {
                return Err(e);
            },
            Ok(b) => b,
        };
        let core = CoreEvals {
            kx: fe_dup(&proof.register_evaluations[0]),
            ky: fe_dup(&proof.register_evaluations[1]),
            b: b_at_zeta,
            sx: fe_dup(&proof.register_evaluations[2]),
            sy: fe_dup(&proof.register_evaluations[3]),
        };
        let constraints = match evaluate_core_constraints(
            &core,
            &public_input.apk,
            &evals_at_zeta,
        ) {
            Err(e) => {
                return Err(e);
            },
            Ok(v) => v,
        };
        let (lin_sx, lin_sy) = linearization_scalars_core(&core, &challenges.phi, &evals_at_zeta);
        let mut lin_scalars: Vec<Fe> = Vec::new();
        lin_scalars.push(lin_sx);
        lin_scalars.push(lin_sy);
        proof {
            assert(vals_of(lin_scalars@) =~= basic_lin_vals(*self, *public_input, *proof)) by {
                reveal(basic_lin_vals);
            }
        }
        let kzg_ok = match self.validate_evaluations(
            proof,
            &lin_scalars,
            &challenges,
            &mut fsrng,
            &evals_at_zeta,
        ) {
            Err(e) => {
                return Err(e);
            },
            Ok(b) => b,
        };
        let w = horner_field(&constraints, &challenges.phi);
        let lhs = fr_add(&proof.r_zeta_omega, &w);
        let rhs = fr_mul(&proof.q_zeta, &evals_at_zeta.vanishing_polynomial);
        let id_ok = fe_eq(&lhs, &rhs);
        proof {
            assert(kzg_ok == basic_accept(*self, *public_input, *proof)) by {
                reveal(basic_accept);
            }
            assert(id_ok == basic_identity(*self, *public_input, *proof)) by {
                reveal(basic_identity);
            }
        }
        Ok(kzg_ok && id_ok)
    }

    /// Verifies a packed-scheme proof against an accountable public input:
    /// the result equals the verdict function of the verifier state, the
    /// public input and the proof.
    #[verifier::rlimit(100)]
    #[verifier::spinoff_prover]
    pub fn verify_packed(&self, public_input: &AccountablePublicInput, proof: &Proof) -> (r:
        Result<bool, ApkError>)
        requires
            self.wf(),
            public_input.wf_spec(),
            proof.wf(),
            proof.scheme == Scheme::Packed,
            public_input.bitmask@.len() < self.domain.size,
        ensures
            r == packed_verdict(*self, *public_input, *proof),
    {
        let (challenges, mut fsrng) = self.restore_challenges(public_input, proof, 8);
        let evals_at_zeta = match lagrange_evaluations(&challenges.zeta, &self.domain) {
            Err(e) => {
                return Err(e);
            },
            Ok(l) => l,
        };
        // The chunk-boundary indicator's value at the evaluation point,
        // recomputed from public data like the basic scheme's bitmask.
        proof {
            let lg = self.domain.log_size;
            assert((1u64 << lg) <= 0x10000) by (bit_vector)
                requires
                    lg <= 16,
            ;
            assert(self.domain.size <= 0x10000);
        }
        let boundary = chunk_boundary_bits(self.domain.size as usize);
        let s_at = match barycentric_eval_binary_at(&challenges.zeta, &boundary, &self.domain) {
            Err(e) => {
                return Err(e);
            },
            Ok(v) => v,
        };
        let core = CoreEvals {
            kx: fe_dup(&proof.register_evaluations[0]),
            ky: fe_dup(&proof.register_evaluations[1]),
            b: fe_dup(&proof.register_evaluations[2]),
            sx: fe_dup(&proof.register_evaluations[3]),
            sy: fe_dup(&proof.register_evaluations[4]),
        };
        let chunks = bitmask_chunks(&public_input.bitmask);
        let b_agg = horner_field(&chunks, &challenges.r);
        let step = chunk_step_at(&challenges.r, &s_at);
        let (constraints, lin_scalars) = match packed_constraint_values(
            &core,
            &proof.register_evaluations[5],
            &proof.register_evaluations[6],
            &b_agg,
            &step,
            &public_input.apk,
            &challenges.phi,
            &evals_at_zeta,
        ) {
            Err(e) => {
                return Err(e);
            },
            Ok(t) => t,
        };
        let kzg_ok = match self.validate_evaluations(
            proof,
            &lin_scalars,
            &challenges,
            &mut fsrng,
            &evals_at_zeta,
        ) {
            Err(e) => {
                return Err(e);
            },
            Ok(b) => b,
        };
        let w = horner_field(&constraints, &challenges.phi);
        let lhs = fr_add(&proof.r_zeta_omega, &w);
        let rhs = fr_mul(&proof.q_zeta, &evals_at_zeta.vanishing_polynomial);
        let id_ok = fe_eq(&lhs, &rhs);
        proof {
            let t0 = self.preprocessed_transcript@;
            let d = self.domain;
            let z = zeta_val_of(t0, *public_input, *proof);
            let rch = r_val_of(t0, *public_input, *proof);
            assert(s_at.val() == bary_eval_of(z, d, chunk_boundary_bits_spec(d.size as nat)))
                by {
                assert(challenges.zeta.val() == z);
                assert(boundary@ == chunk_boundary_bits_spec(d.size as nat));
            }
            assert(step.val() == chunk_step_spec(rch, s_at.val())) by {
                assert(challenges.r.val() == rch);
            }
            assert(vals_of(lin_scalars@) == packed_lin_vals(*self, *public_input, *proof)) by {
                reveal(packed_lin_vals);
            }
            assert(kzg_ok == packed_accept(*self, *public_input, *proof)) by {
                reveal(packed_accept);
            }
            assert(id_ok == packed_identity(*self, *public_input, *proof)) by {
                reveal(packed_identity);
            }
        }
        Ok(kzg_ok && id_ok)
    }

    /// Verifies a counting-scheme proof: the result equals the verdict
    /// function of the verifier state, the public input and the proof. A
    /// claimed participant count of zero is not an accountable instance
    /// and is rejected with an explicit error before anything else is
    /// looked at.
    #[verifier::rlimit(100)]
    pub fn verify_counting(&self, public_input: &CountingPublicInput, proof: &Proof) -> (r:
        Result<bool, ApkError>)
        requires
            self.wf(),
            public_input.wf_spec(),
            proof.wf(),
            proof.scheme == Scheme::Counting,
        ensures
            r == counting_verdict(*self, *public_input, *proof),
    {
        if public_input.count == 0 {
            return Err(ApkError::ZeroParticipants);
        }
        let (challenges, mut fsrng) = self.restore_challenges(public_input, proof, 7);
        let evals_at_zeta = match lagrange_evaluations(&challenges.zeta, &self.domain) {
            Err(e) => {
                return Err(e);
            },
            Ok(l) => l,
        };
        let core = CoreEvals {
            kx: fe_dup(&proof.register_evaluations[0]),
            ky: fe_dup(&proof.register_evaluations[1]),
            b: fe_dup(&proof.register_evaluations[2]),
            sx: fe_dup(&proof.register_evaluations[3]),
            sy: fe_dup(&proof.register_evaluations[4]),
        };
        let mut constraints = match evaluate_core_constraints(
            &core,
            &public_input.apk,
            &evals_at_zeta,
        ) {
            Err(e) => {
                return Err(e);
            },
            Ok(v) => v,
        };
        let count_fe = fr_from_u64(public_input.count as u64);
        let (a6, a7) = evaluate_counting_extra(
            &core.b,
            &proof.register_evaluations[5],
            &count_fe,
            &evals_at_zeta,
        );
        let ghost cv5 = vals_of(constraints@);
        constraints.push(a6);
        constraints.push(a7);
        proof {
            assert(vals_of(constraints@) =~= cv5 + seq![
                vals_of(constraints@)[5],
                vals_of(constraints@)[6],
            ]);
        }
        let (lin_sx, lin_sy) = linearization_scalars_core(&core, &challenges.phi, &evals_at_zeta);
        let lin_acc = linearization_scalar_acc(&challenges.phi, &evals_at_zeta);
        let mut lin_scalars: Vec<Fe> = Vec::new();
        lin_scalars.push(fe_zero());
        lin_scalars.push(lin_sx);
        lin_scalars.push(lin_sy);
        lin_scalars.push(lin_acc);
        proof {
            assert(vals_of(lin_scalars@) =~= counting_lin_vals(*self, *public_input, *proof))
                by {
                reveal(counting_lin_vals);
            }
        }
        let kzg_ok = match self.validate_evaluations(
            proof,
            &lin_scalars,
            &challenges,
            &mut fsrng,
            &evals_at_zeta,
        ) {
            Err(e) => {
                return Err(e);
            },
            Ok(b) => b,
        };
        let w = horner_field(&constraints, &challenges.phi);
        let lhs = fr_add(&proof.r_zeta_omega, &w);
        let rhs = fr_mul(&proof.q_zeta, &evals_at_zeta.vanishing_polynomial);
        let id_ok = fe_eq(&lhs, &rhs);
        proof {
            assert(kzg_ok == counting_accept(*self, *public_input, *proof)) by {
                reveal(counting_accept);
            }
            assert(id_ok == counting_identity(*self, *public_input, *proof)) by {
                reveal(counting_identity);
            }
        }
        Ok(kzg_ok && id_ok)
    }
}

} // verus!
