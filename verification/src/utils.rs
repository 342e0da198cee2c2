//! Field-level helpers of the verifier: Horner combination, the vanishing
//! polynomial and Lagrange-related evaluations at the challenge point, and
//! the barycentric evaluation of a public 0/1 vector.

use vstd::prelude::*;
use crate::fe::{Fe, fr_order, fadd, fsub, fmul, finv, lemma_finv_is, fe_zero, fe_one,
    fr_add, fr_sub, fr_mul, fr_inv, fe_dup};
use crate::domain::{Domain, fr_pow, lemma_fr_pow_adds};
use crate::errors::ApkError;

verus! {

/// The polynomial with the given coefficients, low degree first, evaluated
/// at `x`.
pub open spec fn horner_spec(s: Seq<nat>, x: nat) -> nat
    decreases s.len(),
{
    if s.len() == 0 {
        0
    } else {
        (s[0] + x * horner_spec(s.drop_first(), x)) % fr_order()
    }
}

/// The values of a sequence of field elements.
pub open spec fn vals_of(s: Seq<Fe>) -> Seq<nat> {
    s.map_values(|e: Fe| e.val())
}

/// One Horner step folds one coefficient in.
proof fn lemma_horner_step(c: nat, x: nat, rest: nat)
    requires
        c < fr_order(),
    ensures
        fadd(c, fmul(x, rest)) == (c + x * rest) % fr_order(),
{
    let p = fr_order() as int;
    vstd::arithmetic::div_mod::lemma_add_mod_noop(c as int, (x * rest) as int, p);
    vstd::arithmetic::div_mod::lemma_small_mod(c, fr_order());
}

/// Evaluates the polynomial with coefficients `coeffs` (low degree first)
/// at `x`, by Horner's rule.
pub fn horner_field(coeffs: &Vec<Fe>, x: &Fe) -> (r: Fe)
    requires
        x.wf(),
        forall|i: int| 0 <= i < coeffs@.len() ==> (#[trigger] coeffs@[i]).wf(),
    ensures
        r.wf(),
        r.val() == horner_spec(vals_of(coeffs@), x.val()),
{
    let n = coeffs.len();
    let mut acc = fe_zero();
    let mut i: usize = n;
    proof {
        assert(vals_of(coeffs@).skip(n as int) =~= Seq::<nat>::empty());
    }
    while i > 0
        invariant
            i <= n,
            n == coeffs@.len(),
            x.wf(),
            acc.wf(),
            forall|j: int| 0 <= j < n ==> (#[trigger] coeffs@[j]).wf(),
            acc.val() == horner_spec(vals_of(coeffs@).skip(i as int), x.val()),
        decreases i,
    {
        i -= 1;
        let t = fr_mul(x, &acc);
        acc = fr_add(&coeffs[i], &t);
        proof {
            let s = vals_of(coeffs@);
            assert(s.skip(i as int).drop_first() =~= s.skip(i + 1));
            assert(s.skip(i as int)[0] == coeffs@[i as int].val());
            lemma_horner_step(
                coeffs@[i as int].val(),
                x.val(),
                horner_spec(s.skip(i + 1), x.val()),
            );
        }
    }
    proof {
        assert(vals_of(coeffs@).skip(0) =~= vals_of(coeffs@));
    }
    acc
}

/// `zeta^size - 1`: the vanishing polynomial of the domain at `zeta`.
pub fn vanishing_at(zeta: &Fe, domain: &Domain) -> (r: Fe)
    requires
        zeta.wf(),
        domain.wf(),
    ensures
        r.wf(),
        r.val() == fsub(fr_pow(zeta.val(), domain.size as nat), 1),
{
    let mut cur = fe_dup(zeta);
    let mut m: u64 = 1;
    let mut i: u32 = 0;
    proof {
        assert(1u64 << 0u32 == 1) by (bit_vector);
        assert(fr_pow(zeta.val(), 1) == zeta.val()) by {
            crate::domain::lemma_fr_pow_unfold_one(zeta.val());
        }
    }
    while i < domain.log_size
        invariant
            i <= domain.log_size,
            domain.wf(),
            zeta.wf(),
            cur.wf(),
            m == (1u64 << i),
            m >= 1,
            cur.val() == fr_pow(zeta.val(), m as nat),
        decreases domain.log_size - i,
    {
        proof {
            assert((1u64 << i) <= 0x8000 && ((1u64 << i) << 1) == (1u64 << (i + 1)) && (1u64 << (
            i + 1)) == 2 * (1u64 << i)) by (bit_vector)
                requires
                    i < 16,
                    1 <= (1u64 << i),
            ;
        }
        let sq = fr_mul(&cur, &cur);
        proof {
            lemma_fr_pow_adds(zeta.val(), m as nat, m as nat);
        }
        cur = sq;
        m = m * 2;
        i += 1;
    }
    let one = fe_one();
    fr_sub(&cur, &one)
}

/// The evaluations at the challenge point that the verifier needs: the
/// vanishing polynomial, the shifted point, the distance to the last
/// domain element and its inverse, and the first and last Lagrange basis
/// polynomials.
pub struct LagrangeEvaluations {
    pub vanishing_polynomial: Fe,
    pub zeta_omega: Fe,
    pub not_last: Fe,
    pub zeta_minus_omega_inv: Fe,
    pub l_first: Fe,
    pub l_last: Fe,
}

impl LagrangeEvaluations {
    pub open spec fn wf(self) -> bool {
        self.vanishing_polynomial.wf() && self.zeta_omega.wf() && self.not_last.wf()
            && self.zeta_minus_omega_inv.wf() && self.l_first.wf() && self.l_last.wf()
    }

    /// The exact values, over the domain `d` at the point `z`.
    pub open spec fn is_at(self, z: nat, d: Domain) -> bool {
        &&& self.vanishing_polynomial.val() == van_of(z, d)
        &&& self.zeta_omega.val() == fmul(z, d.group_gen.val())
        &&& self.not_last.val() == not_last_of(z, d)
        &&& self.zeta_minus_omega_inv.val() == zmoi_of(z, d)
        &&& self.l_first.val() == l_first_of(z, d)
        &&& self.l_last.val() == l_last_of(z, d)
    }
}

/// The vanishing polynomial of the domain at `z`.
pub open spec fn van_of(z: nat, d: Domain) -> nat {
    fsub(fr_pow(z, d.size as nat), 1)
}

/// The distance from `z` to the last domain element, `z - omega^{-1}`:
/// the factor that switches the transition constraints off on the
/// wrap-around row.
pub open spec fn not_last_of(z: nat, d: Domain) -> nat {
    fsub(z, d.group_gen_inv.val())
}

/// The inverse of the distance from `z` to the last domain element.
pub open spec fn zmoi_of(z: nat, d: Domain) -> nat {
    finv(fsub(z, d.group_gen_inv.val()))
}

/// The first Lagrange basis polynomial at `z`.
pub open spec fn l_first_of(z: nat, d: Domain) -> nat {
    fmul(fmul(van_of(z, d), d.size_inv.val()), finv(fsub(z, 1)))
}

/// The last Lagrange basis polynomial at `z`.
pub open spec fn l_last_of(z: nat, d: Domain) -> nat {
    fmul(fmul(fmul(van_of(z, d), d.size_inv.val()), d.group_gen_inv.val()), zmoi_of(z, d))
}

/// The barycentric evaluation of the 0/1 vector `bits` at `z`.
pub open spec fn bary_eval_of(z: nat, d: Domain, bits: Seq<bool>) -> nat {
    fmul(fmul(van_of(z, d), d.size_inv.val()), bary_sum(z, d.group_gen.val(), bits))
}

/// Computes the verifier's evaluations at `zeta`. Fails exactly when `zeta`
/// coincides with the last domain element or with one, where an inverse
/// does not exist; such a challenge is degenerate.
pub fn lagrange_evaluations(zeta: &Fe, domain: &Domain) -> (r: Result<
    LagrangeEvaluations,
    ApkError,
>)
    requires
        zeta.wf(),
        domain.wf(),
    ensures
        r is Ok <==> fsub(zeta.val(), domain.group_gen_inv.val()) != 0 && fsub(zeta.val(), 1)
            != 0,
        r is Ok ==> r->Ok_0.wf() && r->Ok_0.is_at(zeta.val(), *domain),
        r is Err ==> r->Err_0 == ApkError::DegenerateChallenge,
{
    let van = vanishing_at(zeta, domain);
    let zeta_omega = fr_mul(zeta, &domain.group_gen);
    let not_last = fr_sub(zeta, &domain.group_gen_inv);
    let zeta_minus_omega_inv = match fr_inv(&not_last) {
        None => {
            return Err(ApkError::DegenerateChallenge);
        },
        Some(v) => v,
    };
    let one = fe_one();
    let dfirst = fr_sub(zeta, &one);
    let dfirst_inv = match fr_inv(&dfirst) {
        None => {
            return Err(ApkError::DegenerateChallenge);
        },
        Some(v) => v,
    };
    let van_over_n = fr_mul(&van, &domain.size_inv);
    let l_first = fr_mul(&van_over_n, &dfirst_inv);
    let l_last = fr_mul(&fr_mul(&van_over_n, &domain.group_gen_inv), &zeta_minus_omega_inv);
    proof {
        lemma_finv_is(not_last.val(), zeta_minus_omega_inv.val());
        lemma_finv_is(dfirst.val(), dfirst_inv.val());
    }
    Ok(
        LagrangeEvaluations {
            vanishing_polynomial: van,
            zeta_omega,
            not_last,
            zeta_minus_omega_inv,
            l_first,
            l_last,
        },
    )
}

/// The barycentric sum over the set bits: for each set bit `i`, the term
/// `omega^i / (zeta - omega^i)`.
pub open spec fn bary_sum(z: nat, g: nat, bits: Seq<bool>) -> nat
    decreases bits.len(),
{
    if bits.len() == 0 {
        0
    } else {
        let i = (bits.len() - 1) as nat;
        let w = fr_pow(g, i);
        let term: nat = if bits[i as int] {
            fmul(w, finv(fsub(z, w)))
        } else {
            0
        };
        fadd(bary_sum(z, g, bits.drop_last()), term)
    }
}

/// Evaluates the unique low-degree interpolation of the 0/1 vector `bits`
/// over the domain at the point `zeta`, in time linear in the domain size.
/// Fails exactly when `zeta` meets the domain at a set bit's position.
pub fn barycentric_eval_binary_at(zeta: &Fe, bits: &crate::bitmask::Bitmask, domain: &Domain)
    -> (r: Result<Fe, ApkError>)
    requires
        zeta.wf(),
        domain.wf(),
        bits@.len() <= domain.size,
    ensures
        r is Ok <==> (forall|i: int|
            0 <= i < bits@.len() ==> !(bits@[i] && fsub(
                zeta.val(),
                #[trigger] fr_pow(domain.group_gen.val(), i as nat),
            ) == 0)),
        r is Ok ==> r->Ok_0.wf() && r->Ok_0.val() == fmul(
            fmul(
                fsub(fr_pow(zeta.val(), domain.size as nat), 1),
                domain.size_inv.val(),
            ),
            bary_sum(zeta.val(), domain.group_gen.val(), bits@),
        ),
        r is Err ==> r->Err_0 == ApkError::DegenerateChallenge,
{
    let n = bits.size();
    let mut acc = fe_zero();
    let mut w = fe_one();
    let mut i: usize = 0;
    proof {
        assert(bits@.take(0) =~= Seq::<bool>::empty());
        crate::domain::lemma_fr_pow_unfold_zero(domain.group_gen.val());
    }
    while i < n
        invariant
            i <= n,
            n == bits@.len(),
            n <= domain.size,
            zeta.wf(),
            domain.wf(),
            acc.wf(),
            w.wf(),
            w.val() == fr_pow(domain.group_gen.val(), i as nat),
            acc.val() == bary_sum(zeta.val(), domain.group_gen.val(), bits@.take(i as int)),
            forall|j: int|
                0 <= j < i ==> !(bits@[j] && fsub(
                    zeta.val(),
                    #[trigger] fr_pow(domain.group_gen.val(), j as nat),
                ) == 0),
        decreases n - i,
    {
        let ghost pre_take = bits@.take(i as int);
        if bits.at(i) {
            let denom = fr_sub(zeta, &w);
            let denom_inv = match fr_inv(&denom) {
                None => {
                    proof {
                        let gv = domain.group_gen.val();
                        let ki: int = i as int;
                        assert(!(forall|k: int|
                            0 <= k < bits@.len() ==> !(bits@[k] && fsub(
                                zeta.val(),
                                #[trigger] fr_pow(gv, k as nat),
                            ) == 0))) by {
                            assert(0 <= ki < bits@.len());
                            assert(bits@[ki] && fsub(zeta.val(), fr_pow(gv, ki as nat)) == 0);
                        }
                    }
                    return Err(ApkError::DegenerateChallenge);
                },
                Some(v) => v,
            };
            let term = fr_mul(&w, &denom_inv);
            acc = fr_add(&acc, &term);
            proof {
                lemma_finv_is(denom.val(), denom_inv.val());
            }
        } else {
            let z = fe_zero();
            acc = fr_add(&acc, &z);
        }
        proof {
            assert(bits@.take(i + 1 as int).drop_last() =~= pre_take);
            assert(bits@.take(i + 1 as int).last() == bits@[i as int]);
        }
        let wn = fr_mul(&w, &domain.group_gen);
        proof {
            lemma_fr_pow_adds(domain.group_gen.val(), i as nat, 1);
            crate::domain::lemma_fr_pow_unfold_one(domain.group_gen.val());
        }
        w = wn;
        i += 1;
    }
    let van = vanishing_at(zeta, domain);
    let van_over_n = fr_mul(&van, &domain.size_inv);
    let out = fr_mul(&van_over_n, &acc);
    proof {
        assert(bits@.take(n as int) =~= bits@);
    }
    Ok(out)
}

/// The barycentric sum over arbitrary row values: each row weighted by
/// `omega^i / (zeta - omega^i)`.
pub open spec fn bary_vals_sum(z: nat, g: nat, vals: Seq<nat>) -> nat
    decreases vals.len(),
{
    if vals.len() == 0 {
        0
    } else {
        let i = (vals.len() - 1) as nat;
        let w = fr_pow(g, i);
        fadd(bary_vals_sum(z, g, vals.drop_last()), fmul(vals[i as int], fmul(w, finv(fsub(z, w)))))
    }
}

/// Evaluates the unique low-degree interpolation of arbitrary row values
/// over the domain at the point `zeta`, in time linear in the rows.
/// Fails exactly when `zeta` meets a row's domain point.
pub fn barycentric_eval_at(zeta: &Fe, values: &Vec<Fe>, domain: &Domain) -> (r: Result<
    Fe,
    ApkError,
>)
    requires
        zeta.wf(),
        domain.wf(),
        values@.len() <= domain.size,
        forall|i: int| 0 <= i < values@.len() ==> (#[trigger] values@[i]).wf(),
    ensures
        r is Ok <==> (forall|i: int|
            0 <= i < values@.len() ==> fsub(
                zeta.val(),
                #[trigger] fr_pow(domain.group_gen.val(), i as nat),
            ) != 0),
        r is Ok ==> r->Ok_0.wf() && r->Ok_0.val() == fmul(
            fmul(van_of(zeta.val(), *domain), domain.size_inv.val()),
            bary_vals_sum(zeta.val(), domain.group_gen.val(), vals_of(values@)),
        ),
        r is Err ==> r->Err_0 == ApkError::DegenerateChallenge,
{
    let n = values.len();
    let mut acc = fe_zero();
    let mut w = fe_one();
    let mut i: usize = 0;
    proof {
        assert(vals_of(values@).take(0) =~= Seq::<nat>::empty());
        crate::domain::lemma_fr_pow_unfold_zero(domain.group_gen.val());
    }
    while i < n
        invariant
            i <= n,
            n == values@.len(),
            n <= domain.size,
            zeta.wf(),
            domain.wf(),
            acc.wf(),
            w.wf(),
            forall|j: int| 0 <= j < n ==> (#[trigger] values@[j]).wf(),
            w.val() == fr_pow(domain.group_gen.val(), i as nat),
            acc.val() == bary_vals_sum(
                zeta.val(),
                domain.group_gen.val(),
                vals_of(values@).take(i as int),
            ),
            forall|j: int|
                0 <= j < i ==> fsub(
                    zeta.val(),
                    #[trigger] fr_pow(domain.group_gen.val(), j as nat),
                ) != 0,
        decreases n - i,
    {
        let denom = fr_sub(zeta, &w);
        let denom_inv = match fr_inv(&denom) {
            None => {
                proof {
                    let gv = domain.group_gen.val();
                    let ki: int = i as int;
                    assert(!(forall|k: int|
                        0 <= k < values@.len() ==> fsub(zeta.val(), #[trigger] fr_pow(gv, k as nat))
                            != 0)) by {
                        assert(0 <= ki < values@.len());
                        assert(fsub(zeta.val(), fr_pow(gv, ki as nat)) == 0);
                    }
                }
                return Err(ApkError::DegenerateChallenge);
            },
            Some(v) => v,
        };
        let weight = fr_mul(&w, &denom_inv);
        let term = fr_mul(&values[i], &weight);
        acc = fr_add(&acc, &term);
        proof {
            lemma_finv_is(denom.val(), denom_inv.val());
            let vs = vals_of(values@);
            assert(vs.take(i + 1 as int).drop_last() =~= vs.take(i as int));
            assert(vs.take(i + 1 as int).last() == values@[i as int].val());
        }
        let wn = fr_mul(&w, &domain.group_gen);
        proof {
            lemma_fr_pow_adds(domain.group_gen.val(), i as nat, 1);
            crate::domain::lemma_fr_pow_unfold_one(domain.group_gen.val());
        }
        w = wn;
        i += 1;
    }
    let van = vanishing_at(zeta, domain);
    let van_over_n = fr_mul(&van, &domain.size_inv);
    let out = fr_mul(&van_over_n, &acc);
    proof {
        assert(vals_of(values@).take(n as int) =~= vals_of(values@));
    }
    Ok(out)
}

} // verus!
