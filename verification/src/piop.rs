//! The register-protocol constraint system, evaluation side.
//!
//! Three fixed variants share the conditional-affine-addition core: a
//! running sum of keyset points, selected by the bitmask, starts at the
//! fixed seed point and ends at the claimed aggregate key. The packed
//! variant adds a chunk-aggregation register pair, the counting variant a
//! plain participation counter. The next-row terms of each constraint are
//! not evaluated here: they live in the linearization polynomial, whose
//! commitment the verifier rebuilds from the register commitments with the
//! scalars computed below. Every transition constraint carries the factor
//! `zeta - omega^{-1}`, which switches it off on the wrap-around row.

use vstd::prelude::*;
use crate::fe::{Fe, fadd, fsub, fmul, fe_one, fr_add, fr_sub, fr_mul};
use crate::points::{AffG1, chord_x, chord_y, point_in_g1_complement, affine_add};
use crate::utils::LagrangeEvaluations;
use crate::fe::{finv, lemma_finv_is, fr_inv};
use crate::domain::{fr_pow, fe_pow2};
use crate::errors::ApkError;

verus! {

/// Conditional-addition x-constraint at the evaluation point, next-row
/// terms dropped and the whole constraint scaled by `zeta - omega^{-1}`,
/// which switches the transition off on the wrap-around row.
#[verifier::opaque]
pub open spec fn a1_spec(nl: nat, b: nat, x1: nat, y1: nat, x2: nat, y2: nat) -> nat {
    fmul(
        nl,
        fadd(
            fmul(b, fsub(fmul(fmul(fsub(x1, x2), fsub(x1, x2)), fadd(x1, x2)), fmul(fsub(y2, y1), fsub(y2, y1)))),
            fmul(fsub(1, b), fsub(0, y1)),
        ),
    )
}

/// Conditional-addition y-constraint, same treatment as `a1_spec`.
#[verifier::opaque]
pub open spec fn a2_spec(nl: nat, b: nat, x1: nat, y1: nat, x2: nat, y2: nat) -> nat {
    fmul(
        nl,
        fadd(
            fmul(b, fadd(fmul(fsub(x1, x2), y1), fmul(fsub(y2, y1), x1))),
            fmul(fsub(1, b), fsub(0, x1)),
        ),
    )
}

/// Bitmask booleanity: `b (1 - b)` must vanish on the domain.
#[verifier::opaque]
pub open spec fn a3_spec(b: nat) -> nat {
    fmul(b, fsub(1, b))
}

/// Boundary constraint on the x-register: the running sum starts at the
/// seed point and ends at seed plus the claimed aggregate key.
#[verifier::opaque]
pub open spec fn a4_spec(l_first: nat, l_last: nat, x1: nat, apkx: nat, apky: nat) -> nat {
    fadd(fmul(l_first, fsub(x1, 0)), fmul(l_last, fsub(x1, chord_x(0, 1, apkx, apky))))
}

/// Boundary constraint on the y-register.
#[verifier::opaque]
pub open spec fn a5_spec(l_first: nat, l_last: nat, y1: nat, apkx: nat, apky: nat) -> nat {
    fadd(fmul(l_first, fsub(y1, 1)), fmul(l_last, fsub(y1, chord_y(0, 1, apkx, apky))))
}

/// Packed chunk-accumulation recurrence, next-row term dropped and scaled
/// like `a1_spec`.
#[verifier::opaque]
pub open spec fn a6_packed_spec(nl: nat, b: nat, c: nat, acc: nat) -> nat {
    fmul(nl, fsub(0, fadd(acc, fmul(b, c))))
}

/// Packed accumulator boundary: zero on the first row, the aggregated
/// bitmask value on the last.
#[verifier::opaque]
pub open spec fn a7_packed_spec(l_first: nat, l_last: nat, acc: nat, b_agg: nat) -> nat {
    fadd(fmul(l_first, acc), fmul(l_last, fsub(acc, b_agg)))
}

/// The chunk-pattern register value at row `j`: the pattern doubles
/// within a 256-bit chunk and restarts each new chunk at the next power
/// of the aggregation challenge, so the accumulator's final value is the
/// challenge-keyed random linear combination of the bitmask's chunks.
pub open spec fn c_pattern_spec(j: nat, r: nat) -> nat {
    fmul(fr_pow(2, j % 256), fr_pow(r, j / 256))
}

/// The running inner product of the bitmask and the chunk pattern over
/// the first `j` rows (bits beyond the bitmask count as clear).
pub open spec fn acc_prefix_spec(bits: Seq<bool>, r: nat, j: nat) -> nat
    decreases j,
{
    if j == 0 {
        0
    } else {
        fadd(
            acc_prefix_spec(bits, r, (j - 1) as nat),
            if j - 1 < bits.len() && bits[j - 1] {
                c_pattern_spec((j - 1) as nat, r)
            } else {
                0
            },
        )
    }
}

/// The chunk-pattern step read at the evaluation point: two away from the
/// chunk boundaries, `r / 2^255` on them, selected by the boundary
/// indicator's value `s`.
#[verifier::opaque]
pub open spec fn chunk_step_spec(r: nat, s: nat) -> nat {
    fadd(2, fmul(fsub(fmul(r, finv(fr_pow(2, 255))), 2), s))
}

/// Packed chunk-pattern recurrence `c' = c * step`, next-row term dropped
/// and scaled like `a1_spec`: this is what binds the committed pattern to
/// the public chunk structure.
#[verifier::opaque]
pub open spec fn a8_packed_spec(nl: nat, c: nat, step: nat) -> nat {
    fmul(nl, fsub(0, fmul(c, step)))
}

/// Packed chunk-pattern boundary: the pattern starts at one.
#[verifier::opaque]
pub open spec fn a9_packed_spec(l_first: nat, c: nat) -> nat {
    fmul(l_first, fsub(c, 1))
}

/// The linearization scalar on the chunk-pattern commitment: its
/// recurrence is the eighth constraint, so its next-row coefficient
/// carries `phi^7`.
#[verifier::opaque]
pub open spec fn lin_c_spec(nl: nat, phi: nat) -> nat {
    fmul(nl, fmul(fmul(fmul(fmul(fmul(fmul(phi, phi), phi), phi), phi), phi), phi))
}

/// Counting recurrence, next-row term dropped and scaled like `a1_spec`.
#[verifier::opaque]
pub open spec fn a6_counting_spec(nl: nat, b: nat, acc: nat) -> nat {
    fmul(nl, fsub(0, fadd(acc, b)))
}

/// Counting accumulator boundary: zero on the first row, the public count
/// on the last.
#[verifier::opaque]
pub open spec fn a7_counting_spec(l_first: nat, l_last: nat, acc: nat, count: nat) -> nat {
    fadd(fmul(l_first, acc), fmul(l_last, fsub(acc, count)))
}

/// The linearization scalar on the partial-sums x-commitment: the next-row
/// coefficients of the two addition constraints, combined by `phi`.
#[verifier::opaque]
pub open spec fn lin_sx_spec(nl: nat, phi: nat, b: nat, x1: nat, y1: nat, x2: nat, y2: nat) -> nat {
    fmul(
        nl,
        fadd(
            fmul(b, fmul(fsub(x1, x2), fsub(x1, x2))),
            fmul(phi, fsub(fsub(1, b), fmul(b, fsub(y2, y1)))),
        ),
    )
}

/// The linearization scalar on the partial-sums y-commitment.
#[verifier::opaque]
pub open spec fn lin_sy_spec(nl: nat, phi: nat, b: nat, x1: nat, x2: nat) -> nat {
    fmul(nl, fadd(fsub(1, b), fmul(phi, fmul(b, fsub(x1, x2)))))
}

/// The linearization scalar on the accumulator commitment: its recurrence
/// is the sixth constraint, so its next-row coefficient carries `phi^5`.
#[verifier::opaque]
pub open spec fn lin_acc_spec(nl: nat, phi: nat) -> nat {
    fmul(nl, fmul(fmul(fmul(fmul(phi, phi), phi), phi), phi))
}

/// The shared register evaluations every variant carries: the keyset
/// coordinate registers and the partial-sum registers at the evaluation
/// point, with the bitmask value there (from the proof, or recomputed from
/// the public bitmask in the basic scheme).
pub struct CoreEvals {
    pub kx: Fe,
    pub ky: Fe,
    pub b: Fe,
    pub sx: Fe,
    pub sy: Fe,
}

impl CoreEvals {
    pub open spec fn wf(self) -> bool {
        self.kx.wf() && self.ky.wf() && self.b.wf() && self.sx.wf() && self.sy.wf()
    }
}

/// The five shared constraint values at the evaluation point, in order,
/// as a function of the plain values involved.
#[verifier::opaque]
pub open spec fn core_constraint_vals(
    nl: nat,
    lf: nat,
    ll: nat,
    b: nat,
    x1: nat,
    y1: nat,
    x2: nat,
    y2: nat,
    apkx: nat,
    apky: nat,
) -> Seq<nat> {
    seq![
        a1_spec(nl, b, x1, y1, x2, y2),
        a2_spec(nl, b, x1, y1, x2, y2),
        a3_spec(b),
        a4_spec(lf, ll, x1, apkx, apky),
        a5_spec(lf, ll, y1, apkx, apky),
    ]
}

/// The five shared constraint values, read off the register evaluations.
pub open spec fn core_constraints_spec(
    e: CoreEvals,
    apkx: nat,
    apky: nat,
    ls: LagrangeEvaluations,
) -> Seq<nat> {
    core_constraint_vals(
        ls.not_last.val(),
        ls.l_first.val(),
        ls.l_last.val(),
        e.b.val(),
        e.sx.val(),
        e.sy.val(),
        e.kx.val(),
        e.ky.val(),
        apkx,
        apky,
    )
}

/// Evaluates the five shared constraints. Fails only when the aggregate
/// key has the seed's x-coordinate, where the boundary sum is undefined.
#[verifier::rlimit(100)]
#[verifier::spinoff_prover]
pub fn evaluate_core_constraints(e: &CoreEvals, apk: &AffG1, ls: &LagrangeEvaluations) -> (r:
    Result<Vec<Fe>, ApkError>)
    requires
        e.wf(),
        apk.wf(),
        ls.wf(),
    ensures
        r is Ok <==> apk.x.val() != 0,
        r is Err ==> r->Err_0 == ApkError::BadPublicKey,
        r is Ok ==> ({
            let v = r->Ok_0@;
            &&& v.len() == 5
            &&& (forall|i: int| 0 <= i < 5 ==> (#[trigger] v[i]).wf())
            &&& crate::utils::vals_of(v) == core_constraints_spec(*e, apk.x.val(), apk.y.val(), *ls)
        }),
{
    let h = point_in_g1_complement();
    let sum = match affine_add(&h, apk) {
        None => {
            return Err(ApkError::BadPublicKey);
        },
        Some(s) => s,
    };
    let nl = &ls.not_last;
    let one = fe_one();
    let x1 = &e.sx;
    let y1 = &e.sy;
    let x2 = &e.kx;
    let y2 = &e.ky;
    let b = &e.b;
    let not_b = fr_sub(&one, b);
    let dx = fr_sub(x1, x2);
    let dy = fr_sub(y2, y1);
    let zero = crate::fe::fe_zero();

    let a1_add = fr_sub(&fr_mul(&fr_mul(&dx, &dx), &fr_add(x1, x2)), &fr_mul(&dy, &dy));
    let a1_skip = fr_sub(&zero, y1);
    let a1 = fr_mul(nl, &fr_add(&fr_mul(b, &a1_add), &fr_mul(&not_b, &a1_skip)));

    let a2_add = fr_add(&fr_mul(&dx, y1), &fr_mul(&dy, x1));
    let a2_skip = fr_sub(&zero, x1);
    let a2 = fr_mul(nl, &fr_add(&fr_mul(b, &a2_add), &fr_mul(&not_b, &a2_skip)));

    let a3 = fr_mul(b, &not_b);

    let a4 = fr_add(
        &fr_mul(&ls.l_first, &fr_sub(x1, &zero)),
        &fr_mul(&ls.l_last, &fr_sub(x1, &sum.x)),
    );
    let a5 = fr_add(
        &fr_mul(&ls.l_first, &fr_sub(y1, &one)),
        &fr_mul(&ls.l_last, &fr_sub(y1, &sum.y)),
    );

    proof {
        let zv = ls.not_last.val();
        let bv = e.b.val();
        let x1v = e.sx.val();
        let y1v = e.sy.val();
        let x2v = e.kx.val();
        let y2v = e.ky.val();
        assert(a1.val() == a1_spec(zv, bv, x1v, y1v, x2v, y2v)) by {
            reveal(a1_spec);
        }
        assert(a2.val() == a2_spec(zv, bv, x1v, y1v, x2v, y2v)) by {
            reveal(a2_spec);
        }
        assert(a3.val() == a3_spec(bv)) by {
            reveal(a3_spec);
        }
        assert(a4.val() == a4_spec(
            ls.l_first.val(),
            ls.l_last.val(),
            x1v,
            apk.x.val(),
            apk.y.val(),
        )) by {
            reveal(a4_spec);
        }
        assert(a5.val() == a5_spec(
            ls.l_first.val(),
            ls.l_last.val(),
            y1v,
            apk.x.val(),
            apk.y.val(),
        )) by {
            reveal(a5_spec);
        }
    }
    let mut out: Vec<Fe> = Vec::new();
    out.push(a1);
    out.push(a2);
    out.push(a3);
    out.push(a4);
    out.push(a5);
    proof {
        reveal(core_constraint_vals);
        assert(crate::utils::vals_of(out@) =~= core_constraints_spec(
            *e,
            apk.x.val(),
            apk.y.val(),
            *ls,
        ));
    }
    Ok(out)
}

/// The linearization scalars on the partial-sum commitments.
pub fn linearization_scalars_core(e: &CoreEvals, phi: &Fe, ls: &LagrangeEvaluations) -> (r: (
    Fe,
    Fe,
))
    requires
        e.wf(),
        phi.wf(),
        ls.wf(),
    ensures
        r.0.wf() && r.1.wf(),
        r.0.val() == lin_sx_spec(
            ls.not_last.val(),
            phi.val(),
            e.b.val(),
            e.sx.val(),
            e.sy.val(),
            e.kx.val(),
            e.ky.val(),
        ),
        r.1.val() == lin_sy_spec(
            ls.not_last.val(),
            phi.val(),
            e.b.val(),
            e.sx.val(),
            e.kx.val(),
        ),
{
    let nl = &ls.not_last;
    let one = fe_one();
    let b = &e.b;
    let not_b = fr_sub(&one, b);
    let dx = fr_sub(&e.sx, &e.kx);
    let dy = fr_sub(&e.ky, &e.sy);
    let lin_sx = fr_mul(
        nl,
        &fr_add(&fr_mul(b, &fr_mul(&dx, &dx)), &fr_mul(phi, &fr_sub(&not_b, &fr_mul(b, &dy)))),
    );
    let lin_sy = fr_mul(nl, &fr_add(&not_b, &fr_mul(phi, &fr_mul(b, &dx))));
    proof {
        reveal(lin_sx_spec);
        reveal(lin_sy_spec);
    }
    (lin_sx, lin_sy)
}

/// The linearization scalar on the accumulator commitment.
pub fn linearization_scalar_acc(phi: &Fe, ls: &LagrangeEvaluations) -> (r: Fe)
    requires
        phi.wf(),
        ls.wf(),
    ensures
        r.wf(),
        r.val() == lin_acc_spec(ls.not_last.val(), phi.val()),
{
    let p2 = fr_mul(phi, phi);
    let p3 = fr_mul(&p2, phi);
    let p4 = fr_mul(&p3, phi);
    let p5 = fr_mul(&p4, phi);
    proof {
        reveal(lin_acc_spec);
    }
    fr_mul(&ls.not_last, &p5)
}

/// Evaluates the packed variant's two extra constraints.
pub fn evaluate_packed_extra(
    b: &Fe,
    c: &Fe,
    acc: &Fe,
    b_agg: &Fe,
    ls: &LagrangeEvaluations,
) -> (r: (Fe, Fe))
    requires
        b.wf(),
        c.wf(),
        acc.wf(),
        b_agg.wf(),
        ls.wf(),
    ensures
        r.0.wf() && r.1.wf(),
        r.0.val() == a6_packed_spec(ls.not_last.val(), b.val(), c.val(), acc.val()),
        r.1.val() == a7_packed_spec(ls.l_first.val(), ls.l_last.val(), acc.val(), b_agg.val()),
{
    let zero = crate::fe::fe_zero();
    let a6 = fr_mul(&ls.not_last, &fr_sub(&zero, &fr_add(acc, &fr_mul(b, c))));
    let a7 = fr_add(&fr_mul(&ls.l_first, acc), &fr_mul(&ls.l_last, &fr_sub(acc, b_agg)));
    proof {
        reveal(a6_packed_spec);
        reveal(a7_packed_spec);
    }
    (a6, a7)
}

/// Evaluates the counting variant's two extra constraints.
pub fn evaluate_counting_extra(b: &Fe, acc: &Fe, count: &Fe, ls: &LagrangeEvaluations) -> (r: (
    Fe,
    Fe,
))
    requires
        b.wf(),
        acc.wf(),
        count.wf(),
        ls.wf(),
    ensures
        r.0.wf() && r.1.wf(),
        r.0.val() == a6_counting_spec(ls.not_last.val(), b.val(), acc.val()),
        r.1.val() == a7_counting_spec(
            ls.l_first.val(),
            ls.l_last.val(),
            acc.val(),
            count.val(),
        ),
{
    let zero = crate::fe::fe_zero();
    let a6 = fr_mul(&ls.not_last, &fr_sub(&zero, &fr_add(acc, b)));
    let a7 = fr_add(&fr_mul(&ls.l_first, acc), &fr_mul(&ls.l_last, &fr_sub(acc, count)));
    proof {
        reveal(a6_counting_spec);
        reveal(a7_counting_spec);
    }
    (a6, a7)
}

/// The inverse of `2^255`, for the chunk-boundary step.
pub fn inv_of_pow2_255() -> (r: Fe)
    ensures
        r.wf(),
        r.val() == finv(fr_pow(2, 255)),
{
    let p255 = fe_pow2(255);
    let inv = match fr_inv(&p255) {
        None => {
            proof {
                assert(false);
            }
            p255
        },
        Some(v) => v,
    };
    proof {
        lemma_finv_is(p255.val(), inv.val());
    }
    inv
}

/// Computes the chunk-pattern step at the evaluation point from the
/// aggregation challenge and the boundary indicator's value there.
pub fn chunk_step_at(r: &Fe, s: &Fe) -> (res: Fe)
    requires
        r.wf(),
        s.wf(),
    ensures
        res.wf(),
        res.val() == chunk_step_spec(r.val(), s.val()),
{
    let inv = inv_of_pow2_255();
    let two = crate::fe::fr_from_u64(2);
    let scaled = fr_mul(r, &inv);
    let shifted = fr_sub(&scaled, &two);
    proof {
        reveal(chunk_step_spec);
    }
    fr_add(&two, &fr_mul(&shifted, s))
}

/// Evaluates the packed variant's chunk-pattern constraints.
pub fn evaluate_packed_chunk_constraints(c: &Fe, step: &Fe, ls: &LagrangeEvaluations) -> (r: (
    Fe,
    Fe,
))
    requires
        c.wf(),
        step.wf(),
        ls.wf(),
    ensures
        r.0.wf() && r.1.wf(),
        r.0.val() == a8_packed_spec(ls.not_last.val(), c.val(), step.val()),
        r.1.val() == a9_packed_spec(ls.l_first.val(), c.val()),
{
    let zero = crate::fe::fe_zero();
    let one = fe_one();
    let a8 = fr_mul(&ls.not_last, &fr_sub(&zero, &fr_mul(c, step)));
    let a9 = fr_mul(&ls.l_first, &fr_sub(c, &one));
    proof {
        reveal(a8_packed_spec);
        reveal(a9_packed_spec);
    }
    (a8, a9)
}

/// The linearization scalar on the chunk-pattern commitment.
pub fn linearization_scalar_c(phi: &Fe, ls: &LagrangeEvaluations) -> (r: Fe)
    requires
        phi.wf(),
        ls.wf(),
    ensures
        r.wf(),
        r.val() == lin_c_spec(ls.not_last.val(), phi.val()),
{
    let p2 = fr_mul(phi, phi);
    let p3 = fr_mul(&p2, phi);
    let p4 = fr_mul(&p3, phi);
    let p5 = fr_mul(&p4, phi);
    let p6 = fr_mul(&p5, phi);
    let p7 = fr_mul(&p6, phi);
    proof {
        reveal(lin_c_spec);
    }
    fr_mul(&ls.not_last, &p7)
}

/// The prover-side register builder of the packed scheme, over registers
/// in evaluation form: one field value per domain row. The first-round
/// (partial-sum) registers belong to the shared affine-addition machinery;
/// what is built here is the second round — the chunk-pattern register and
/// the accumulator that together commit to the challenge-keyed combination
/// of the bitmask's chunks.
pub struct PackedRegisterBuilder {
    pub domain: crate::domain::Domain,
    pub bitmask: crate::bitmask::Bitmask,
    pub keyset: Vec<crate::points::AffG1>,
    pub round2_challenge: Option<Fe>,
    pub c_register: Vec<Fe>,
    pub acc_register: Vec<Fe>,
}

impl PackedRegisterBuilder {
    /// The witness and keyset fit the domain; registers, once built, hold
    /// one well-formed value per row.
    pub open spec fn wf(self) -> bool {
        &&& self.domain.wf()
        &&& self.bitmask@.len() < self.domain.size
        &&& (forall|i: int| 0 <= i < self.keyset@.len() ==> (#[trigger] self.keyset@[i]).wf())
        &&& (self.round2_challenge is Some ==> self.round2_challenge->0.wf()
            && self.c_register@.len() == self.domain.size
            && self.acc_register@.len() == self.domain.size)
        &&& (forall|i: int| 0 <= i < self.c_register@.len() ==> (#[trigger] self.c_register@[i]).wf())
        &&& (forall|i: int|
            0 <= i < self.acc_register@.len() ==> (#[trigger] self.acc_register@[i]).wf())
    }

    /// Starts a proof over the given witness: the second-round registers
    /// are built once the aggregation challenge arrives.
    pub fn init(
        domain: crate::domain::Domain,
        bitmask: crate::bitmask::Bitmask,
        keyset: Vec<crate::points::AffG1>,
    ) -> (r: PackedRegisterBuilder)
        requires
            domain.wf(),
            bitmask@.len() < domain.size,
            forall|i: int| 0 <= i < keyset@.len() ==> (#[trigger] keyset@[i]).wf(),
        ensures
            r.wf(),
            r.domain == domain,
            r.bitmask@ == bitmask@,
            r.keyset@ == keyset@,
            r.round2_challenge is None,
    {
        PackedRegisterBuilder {
            domain,
            bitmask,
            keyset,
            round2_challenge: None,
            c_register: Vec::new(),
            acc_register: Vec::new(),
        }
    }

    /// Builds the chunk-pattern and accumulation registers for the
    /// aggregation challenge `r`: row `j` of the pattern holds
    /// `2^(j mod 256) * r^(j div 256)`, and the accumulator holds the
    /// running inner product of the bitmask with the pattern.
    #[verifier::loop_isolation(false)]
    pub fn get_2nd_round_register_polynomials(&mut self, r: &Fe) -> (res: (Vec<Fe>, Vec<Fe>))
        requires
            old(self).wf(),
            r.wf(),
        ensures
            final(self).wf(),
            final(self).domain == old(self).domain,
            final(self).bitmask@ == old(self).bitmask@,
            final(self).keyset@ == old(self).keyset@,
            final(self).round2_challenge is Some && final(self).round2_challenge->0.bytes@
                == r.bytes@,
            final(self).c_register@.len() == old(self).domain.size,
            final(self).acc_register@.len() == old(self).domain.size,
            res.0@.len() == old(self).domain.size,
            res.1@.len() == old(self).domain.size,
            forall|j: int|
                0 <= j < res.0@.len() ==> (#[trigger] res.0@[j]).wf() && res.0@[j].val()
                    == c_pattern_spec(j as nat, r.val()),
            forall|j: int|
                0 <= j < res.1@.len() ==> (#[trigger] res.1@[j]).wf() && res.1@[j].val()
                    == acc_prefix_spec(old(self).bitmask@, r.val(), j as nat),
            forall|j: int|
                0 <= j < final(self).c_register@.len() ==> (
                #[trigger] final(self).c_register@[j]).val() == c_pattern_spec(
                    j as nat,
                    r.val(),
                ),
            forall|j: int|
                0 <= j < final(self).acc_register@.len() ==> (
                #[trigger] final(self).acc_register@[j]).val() == acc_prefix_spec(
                    old(self).bitmask@,
                    r.val(),
                    j as nat,
                ),
    {
        let n64 = self.domain.size;
        proof {
            let lg = self.domain.log_size;
            assert((1u64 << lg) <= 0x10000) by (bit_vector)
                requires
                    lg <= 16,
            ;
        }
        let n = n64 as usize;
        let mut c_reg: Vec<Fe> = Vec::new();
        let mut acc_reg: Vec<Fe> = Vec::new();
        let mut pw2 = fe_one();
        let mut rpow = fe_one();
        let mut acc = crate::fe::fe_zero();
        let mut j: usize = 0;
        proof {
            crate::domain::lemma_fr_pow_unfold_zero(2);
            crate::domain::lemma_fr_pow_unfold_zero(r.val());
        }
        while j < n
            invariant
                j <= n,
                c_reg@.len() == j,
                acc_reg@.len() == j,
                pw2.wf(),
                rpow.wf(),
                acc.wf(),
                pw2.val() == fr_pow(2, (j % 256) as nat),
                rpow.val() == fr_pow(r.val(), (j / 256) as nat),
                acc.val() == acc_prefix_spec(self.bitmask@, r.val(), j as nat),
                forall|i: int|
                    0 <= i < j ==> (#[trigger] c_reg@[i]).wf() && c_reg@[i].val()
                        == c_pattern_spec(i as nat, r.val()),
                forall|i: int|
                    0 <= i < j ==> (#[trigger] acc_reg@[i]).wf() && acc_reg@[i].val()
                        == acc_prefix_spec(self.bitmask@, r.val(), i as nat),
            decreases n - j,
        {
            let c_j = fr_mul(&pw2, &rpow);
            acc_reg.push(crate::fe::fe_dup(&acc));
            c_reg.push(crate::fe::fe_dup(&c_j));
            let bit = j < self.bitmask.size() && self.bitmask.at(j);
            let term = if bit {
                crate::fe::fe_dup(&c_j)
            } else {
                crate::fe::fe_zero()
            };
            acc = crate::fe::fr_add(&acc, &term);
            let boundary = j % 256 == 255;
            if boundary {
                pw2 = fe_one();
                rpow = fr_mul(&rpow, r);
            } else {
                pw2 = crate::fe::fr_add(&pw2, &pw2);
            }
            proof {
                let ji = j as int;
                vstd::arithmetic::div_mod::lemma_fundamental_div_mod(ji, 256);
                if boundary {
                    vstd::arithmetic::div_mod::lemma_fundamental_div_mod_converse(
                        ji + 1,
                        256,
                        ji / 256 + 1,
                        0,
                    );
                    crate::domain::lemma_fr_pow_unfold_zero(2);
                    assert(fr_pow(r.val(), (ji / 256 + 1) as nat) == (r.val() * fr_pow(
                        r.val(),
                        (ji / 256) as nat,
                    )) % crate::fe::fr_order());
                    vstd::arithmetic::mul::lemma_mul_is_commutative(
                        r.val() as int,
                        fr_pow(r.val(), (ji / 256) as nat) as int,
                    );
                    assert(rpow.val() == (fr_pow(r.val(), (ji / 256) as nat) * r.val())
                        % crate::fe::fr_order());
                } else {
                    vstd::arithmetic::div_mod::lemma_fundamental_div_mod_converse(
                        ji + 1,
                        256,
                        ji / 256,
                        ji % 256 + 1,
                    );
                }
                assert(((ji + 1) / 256) as nat == (if boundary {
                    (ji / 256 + 1) as nat
                } else {
                    (ji / 256) as nat
                }));
                assert(rpow.val() == fr_pow(r.val(), ((ji + 1) / 256) as nat));
            }
            j += 1;
        }
        let out_c = crate::fe::fe_dup_vec(&c_reg);
        let out_acc = crate::fe::fe_dup_vec(&acc_reg);
        self.round2_challenge = Some(crate::fe::fe_dup(r));
        self.c_register = c_reg;
        self.acc_register = acc_reg;
        (out_c, out_acc)
    }

    /// The packing-constraint rows over the built registers, before the
    /// wrap-row masking: for each row, the accumulator recurrence defect
    /// and the pattern recurrence defect against the next row (the last
    /// row wraps to the first).
    pub fn compute_constraint_polynomials(&self) -> (res: (Vec<Fe>, Vec<Fe>))
        requires
            self.wf(),
            self.round2_challenge is Some,
        ensures
            res.0@.len() == self.domain.size,
            res.1@.len() == self.domain.size,
            forall|j: int| 0 <= j < res.0@.len() ==> (#[trigger] res.0@[j]).wf(),
            forall|j: int| 0 <= j < res.1@.len() ==> (#[trigger] res.1@[j]).wf(),
            forall|j: int|
                0 <= j < res.0@.len() ==> (#[trigger] res.0@[j]).val() == ({
                    let k = if j + 1 < self.domain.size {
                        j + 1
                    } else {
                        0
                    };
                    fsub(
                        self.acc_register@[k].val(),
                        fadd(
                            self.acc_register@[j].val(),
                            if j < self.bitmask@.len() && self.bitmask@[j] {
                                self.c_register@[j].val()
                            } else {
                                0
                            },
                        ),
                    )
                }),
            forall|j: int|
                0 <= j < res.1@.len() ==> (#[trigger] res.1@[j]).val() == ({
                    let k = if j + 1 < self.domain.size {
                        j + 1
                    } else {
                        0
                    };
                    fsub(
                        self.c_register@[k].val(),
                        fmul(
                            self.c_register@[j].val(),
                            if j % 256 == 255 {
                                fmul(
                                    self.round2_challenge->0.val(),
                                    crate::fe::finv(fr_pow(2, 255)),
                                )
                            } else {
                                2
                            },
                        ),
                    )
                }),
    {
        let n64 = self.domain.size;
        proof {
            let lg = self.domain.log_size;
            assert((1u64 << lg) <= 0x10000) by (bit_vector)
                requires
                    lg <= 16,
            ;
        }
        let n = n64 as usize;
        let r = match &self.round2_challenge {
            Some(v) => v,
            None => {
                proof {
                    assert(false);
                }
                return (Vec::new(), Vec::new());
            },
        };
        let two = crate::fe::fr_from_u64(2);
        let rstep = fr_mul(r, &inv_of_pow2_255());
        let mut acc_rows: Vec<Fe> = Vec::new();
        let mut c_rows: Vec<Fe> = Vec::new();
        let mut j: usize = 0;
        while j < n
            invariant
                j <= n,
                self.wf(),
                self.round2_challenge is Some,
                n == self.domain.size,
                two.wf(),
                two.val() == 2,
                rstep.wf(),
                rstep.val() == fmul(self.round2_challenge->0.val(), crate::fe::finv(fr_pow(2, 255))),
                acc_rows@.len() == j,
                c_rows@.len() == j,
                forall|i: int| 0 <= i < j ==> (#[trigger] acc_rows@[i]).wf(),
                forall|i: int| 0 <= i < j ==> (#[trigger] c_rows@[i]).wf(),
                forall|i: int|
                    0 <= i < j ==> (#[trigger] acc_rows@[i]).val() == ({
                        let k = if i + 1 < self.domain.size {
                            i + 1
                        } else {
                            0
                        };
                        fsub(
                            self.acc_register@[k].val(),
                            fadd(
                                self.acc_register@[i].val(),
                                if i < self.bitmask@.len() && self.bitmask@[i] {
                                    self.c_register@[i].val()
                                } else {
                                    0
                                },
                            ),
                        )
                    }),
                forall|i: int|
                    0 <= i < j ==> (#[trigger] c_rows@[i]).val() == ({
                        let k = if i + 1 < self.domain.size {
                            i + 1
                        } else {
                            0
                        };
                        fsub(
                            self.c_register@[k].val(),
                            fmul(
                                self.c_register@[i].val(),
                                if i % 256 == 255 {
                                    fmul(
                                        self.round2_challenge->0.val(),
                                        crate::fe::finv(fr_pow(2, 255)),
                                    )
                                } else {
                                    2
                                },
                            ),
                        )
                    }),
            decreases n - j,
        {
            let k: usize = if j + 1 < n {
                j + 1
            } else {
                0
            };
            let bterm = if j < self.bitmask.size() && self.bitmask.at(j) {
                crate::fe::fe_dup(&self.c_register[j])
            } else {
                crate::fe::fe_zero()
            };
            let acc_row = crate::fe::fr_sub(
                &self.acc_register[k],
                &crate::fe::fr_add(&self.acc_register[j], &bterm),
            );
            let step_j = if j % 256 == 255 {
                crate::fe::fe_dup(&rstep)
            } else {
                crate::fe::fe_dup(&two)
            };
            let c_row = crate::fe::fr_sub(&self.c_register[k], &fr_mul(&self.c_register[j], &step_j));
            acc_rows.push(acc_row);
            c_rows.push(c_row);
            j += 1;
        }
        (acc_rows, c_rows)
    }

    /// Evaluates the two built registers at an arbitrary point by the
    /// barycentric rule; fails exactly when the point lies on the domain.
    pub fn evaluate_register_polynomials(&self, point: &Fe) -> (res: Result<(Fe, Fe), ApkError>)
        requires
            self.wf(),
            self.round2_challenge is Some,
            point.wf(),
        ensures
            res is Ok <==> (forall|i: int|
                0 <= i < self.domain.size ==> fsub(
                    point.val(),
                    #[trigger] fr_pow(self.domain.group_gen.val(), i as nat),
                ) != 0),
            res is Ok ==> ({
                let (c_at, acc_at) = res->Ok_0;
                &&& c_at.wf() && c_at.val() == fmul(
                    fmul(
                        crate::utils::van_of(point.val(), self.domain),
                        self.domain.size_inv.val(),
                    ),
                    crate::utils::bary_vals_sum(
                        point.val(),
                        self.domain.group_gen.val(),
                        crate::utils::vals_of(self.c_register@),
                    ),
                )
                &&& acc_at.wf() && acc_at.val() == fmul(
                    fmul(
                        crate::utils::van_of(point.val(), self.domain),
                        self.domain.size_inv.val(),
                    ),
                    crate::utils::bary_vals_sum(
                        point.val(),
                        self.domain.group_gen.val(),
                        crate::utils::vals_of(self.acc_register@),
                    ),
                )
            }),
            res is Err ==> res->Err_0 == ApkError::DegenerateChallenge,
    {
        let c_at = match crate::utils::barycentric_eval_at(point, &self.c_register, &self.domain) {
            Err(e) => {
                return Err(e);
            },
            Ok(v) => v,
        };
        let acc_at = match crate::utils::barycentric_eval_at(
            point,
            &self.acc_register,
            &self.domain,
        ) {
            Err(e) => {
                return Err(e);
            },
            Ok(v) => v,
        };
        Ok((c_at, acc_at))
    }
}

} // verus!
