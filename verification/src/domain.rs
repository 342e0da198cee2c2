//! The evaluation domain: a multiplicative subgroup of the scalar field of
//! power-of-two size.
//!
//! The generator, its inverse and the size inverse come from arkworks.
//! Construction nevertheless re-checks them by verified field arithmetic —
//! the generator's exact order and both inverses — so the well-formedness
//! below is established by verified code, and a violation of the trusted
//! promises would be caught at run time.

use vstd::prelude::*;
use crate::fe::{Fe, fr_order, fmul, fe_one, fr_mul, fr_from_u64, fe_eq, u64_le_bytes,
    u64_le_bytes_spec, u32_le_bytes, u32_le_bytes_spec};
use crate::errors::ApkError;
use crate::keyset::append_bytes;
use ark_poly::EvaluationDomain;
use ark_serialize::CanonicalSerialize;

verus! {

/// `b^e` in the scalar field, for a reduced base.
pub open spec fn fr_pow(b: nat, e: nat) -> nat
    decreases e,
{
    if e == 0 {
        1nat % fr_order()
    } else {
        (b * fr_pow(b, (e - 1) as nat)) % fr_order()
    }
}

/// Powers split across a sum of exponents.
pub proof fn lemma_fr_pow_adds(b: nat, e1: nat, e2: nat)
    requires
        b < fr_order(),
    ensures
        fr_pow(b, e1 + e2) == fmul(fr_pow(b, e1), fr_pow(b, e2)),
    decreases e1,
{
    let p = fr_order() as int;
    if e1 == 0 {
        vstd::arithmetic::div_mod::lemma_small_mod(1, fr_order());
        vstd::arithmetic::div_mod::lemma_mul_mod_noop_general(1, fr_pow(b, e2) as int, p);
        vstd::arithmetic::div_mod::lemma_mod_twice(fr_pow(b, e2) as int, p);
    } else {
        lemma_fr_pow_adds(b, (e1 - 1) as nat, e2);
        let x = fr_pow(b, (e1 - 1) as nat) as int;
        let y = fr_pow(b, e2) as int;
        let bb = b as int;
        assert(fr_pow(b, e1 + e2) == (bb * ((x * y) % p)) % p);
        vstd::arithmetic::div_mod::lemma_mul_mod_noop_general(bb, x * y, p);
        vstd::arithmetic::mul::lemma_mul_is_associative(bb, x, y);
        vstd::arithmetic::div_mod::lemma_mul_mod_noop_general(bb * x, y, p);
    }
}

/// A multiplicative subgroup of the scalar field, of size `2^log_size`.
/// Beside the generator data it carries the size as a field element and
/// the (trivial) coset offset triple, so that the transcript absorbs the
/// full nine-field parameter block.
pub struct Domain {
    pub size: u64,
    pub log_size: u32,
    pub size_as_fe: Fe,
    pub size_inv: Fe,
    pub group_gen: Fe,
    pub group_gen_inv: Fe,
    pub offset: Fe,
    pub offset_inv: Fe,
    pub offset_pow_size: Fe,
}

/// The largest supported log-size.
pub const MAX_LOG_DOMAIN_SIZE: u32 = 16;

impl Domain {
    pub open spec fn wf(self) -> bool {
        &&& 1 <= self.log_size <= MAX_LOG_DOMAIN_SIZE
        &&& self.size == (1u64 << self.log_size)
        &&& 2 <= self.size
        &&& self.group_gen.wf()
        &&& self.group_gen_inv.wf()
        &&& self.size_inv.wf()
        &&& self.size_as_fe.wf() && self.size_as_fe.val() == (self.size as nat) % fr_order()
        &&& self.offset.wf() && self.offset.val() == 1
        &&& self.offset_inv.wf() && self.offset_inv.val() == 1
        &&& self.offset_pow_size.wf() && self.offset_pow_size.val() == 1
        &&& fr_pow(self.group_gen.val(), self.size as nat) == 1
        &&& (forall|e: int| 1 <= e < self.size ==> #[trigger] fr_pow(self.group_gen.val(), e as nat) != 1)
        &&& fmul(self.group_gen.val(), self.group_gen_inv.val()) == 1
        &&& fmul(self.size_inv.val(), (self.size as nat) % fr_order()) == 1
    }

    /// The fixed transcript encoding of the domain parameters: all nine
    /// fields, in declaration order.
    pub open spec fn bytes_spec(self) -> Seq<u8> {
        u64_le_bytes_spec(self.size) + u32_le_bytes_spec(self.log_size) + self.size_as_fe.bytes@
            + self.size_inv.bytes@ + self.group_gen.bytes@ + self.group_gen_inv.bytes@
            + self.offset.bytes@ + self.offset_inv.bytes@ + self.offset_pow_size.bytes@
    }

    /// Encodes the domain for transcript absorption.
    pub fn to_transcript_bytes(&self) -> (r: Vec<u8>)
        requires
            self.wf(),
        ensures
            r@ == self.bytes_spec(),
    {
        let mut out = u64_le_bytes(self.size);
        let log_bytes = u32_le_bytes(self.log_size);
        append_bytes(&mut out, &log_bytes);
        append_bytes(&mut out, &self.size_as_fe.bytes);
        append_bytes(&mut out, &self.size_inv.bytes);
        append_bytes(&mut out, &self.group_gen.bytes);
        append_bytes(&mut out, &self.group_gen_inv.bytes);
        append_bytes(&mut out, &self.offset.bytes);
        append_bytes(&mut out, &self.offset_inv.bytes);
        append_bytes(&mut out, &self.offset_pow_size.bytes);
        out
    }

    /// Builds and checks the domain of size `2^log_size`: construction
    /// succeeds exactly on the supported log-sizes. Every claim the
    /// well-formedness makes about the parameters is re-checked here by
    /// field arithmetic; a parameter set failing any check is rejected.
    #[verifier::loop_isolation(false)]
    pub fn new(log_size: u32) -> (r: Result<Domain, ApkError>)
        ensures
            r is Ok <==> 1 <= log_size <= MAX_LOG_DOMAIN_SIZE,
            r is Err ==> r->Err_0 == ApkError::UnsupportedDomainSize,
            r is Ok ==> r->Ok_0.wf() && r->Ok_0.log_size == log_size,
    {
        if log_size < 1 || log_size > MAX_LOG_DOMAIN_SIZE {
            return Err(ApkError::UnsupportedDomainSize);
        }
        let size: u64 = 1u64 << log_size;
        proof {
            assert(2 <= (1u64 << log_size) <= 0x10000) by (bit_vector)
                requires
                    1 <= log_size <= 16,
            ;
        }
        let (group_gen, group_gen_inv, size_inv) = match radix2_domain_params(log_size) {
            None => {
                return Err(ApkError::MalformedDomain);
            },
            Some(t) => t,
        };
        proof {
            assert(fr_pow(group_gen.val(), size as nat) == 1);
            assert(forall|k: int|
                1 <= k < size ==> #[trigger] fr_pow(group_gen.val(), k as nat) != 1);
            assert(fmul(group_gen.val(), group_gen_inv.val()) == 1);
            assert(fmul(size_inv.val(), (size as nat) % fr_order()) == 1);
        }
        let one = fe_one();
        // The generator must have exact order `size`: no smaller positive
        // power reaches one, and the `size`-th power does.
        let mut cur = crate::fe::fe_dup(&group_gen);
        let mut e: u64 = 1;
        proof {
            lemma_fr_pow_unfold_one(group_gen.val());
        }
        while e < size
            invariant
                1 <= e <= size,
                cur.wf(),
                group_gen.wf(),
                one.wf(),
                one.val() == 1,
                cur.val() == fr_pow(group_gen.val(), e as nat),
                forall|k: int| 1 <= k < e ==> #[trigger] fr_pow(group_gen.val(), k as nat) != 1,
            decreases size - e,
        {
            if fe_eq(&cur, &one) {
                proof {
                    let ki: int = e as int;
                    assert(1 <= ki < size);
                    assert(fr_pow(group_gen.val(), ki as nat) != 1);
                    assert(false);
                }
                return Err(ApkError::MalformedDomain);
            }
            cur = fr_mul(&cur, &group_gen);
            proof {
                assert(fr_pow(group_gen.val(), (e + 1) as nat) == (group_gen.val() * fr_pow(
                    group_gen.val(),
                    e as nat,
                )) % fr_order());
                vstd::arithmetic::div_mod::lemma_mul_mod_noop_general(
                    fr_pow(group_gen.val(), e as nat) as int,
                    group_gen.val() as int,
                    fr_order() as int,
                );
            }
            e += 1;
        }
        if !fe_eq(&cur, &one) {
            return Err(ApkError::MalformedDomain);
        }
        // The claimed inverses must invert.
        let gen_prod = fr_mul(&group_gen, &group_gen_inv);
        if !fe_eq(&gen_prod, &one) {
            return Err(ApkError::MalformedDomain);
        }
        let size_fe = fr_from_u64(size);
        let size_prod = fr_mul(&size_inv, &size_fe);
        if !fe_eq(&size_prod, &one) {
            return Err(ApkError::MalformedDomain);
        }
        // The trivial coset: this domain is never shifted.
        let offset = fe_one();
        let offset_inv = fe_one();
        let offset_pow_size = fe_one();
        Ok(
            Domain {
                size,
                log_size,
                size_as_fe: size_fe,
                size_inv,
                group_gen,
                group_gen_inv,
                offset,
                offset_inv,
                offset_pow_size,
            },
        )
    }
}

/// Powers of two up to the chunk width stay below the field order.
pub proof fn lemma_pow2_255_below_order()
    ensures
        vstd::arithmetic::power2::pow2(255) < fr_order(),
{
    vstd::arithmetic::power2::lemma2_to64();
    vstd::arithmetic::power2::lemma2_to64_rest();
    vstd::arithmetic::power2::lemma_pow2_adds(64, 64);
    vstd::arithmetic::power2::lemma_pow2_adds(128, 64);
    vstd::arithmetic::power2::lemma_pow2_adds(192, 63);
}

/// `2^k` in the field, by repeated doubling. Every supported exponent
/// stays below the field order, so the value is the plain power of two,
/// in particular nonzero.
pub fn fe_pow2(k: u32) -> (r: Fe)
    requires
        k <= 255,
    ensures
        r.wf(),
        r.val() == fr_pow(2, k as nat),
        1 <= r.val(),
{
    let mut cur = fe_one();
    let mut i: u32 = 0;
    proof {
        vstd::arithmetic::power2::lemma2_to64();
        assert(fr_pow(2, 0) == 1) by {
            lemma_fr_pow_unfold_zero(2);
        }
    }
    while i < k
        invariant
            i <= k <= 255,
            cur.wf(),
            cur.val() == fr_pow(2, i as nat),
            cur.val() == vstd::arithmetic::power2::pow2(i as nat),
        decreases k - i,
    {
        let next = crate::fe::fr_add(&cur, &cur);
        proof {
            vstd::arithmetic::power2::lemma2_to64();
            vstd::arithmetic::power2::lemma_pow2_adds(i as nat, 1);
            lemma_pow2_255_below_order();
            if i + 1 < 255 {
                vstd::arithmetic::power2::lemma_pow2_strictly_increases((i + 1) as nat, 255);
            }
            let p2 = vstd::arithmetic::power2::pow2((i + 1) as nat);
            vstd::arithmetic::div_mod::lemma_small_mod(p2, fr_order());
            assert(fr_pow(2, (i + 1) as nat) == (2 * fr_pow(2, i as nat)) % fr_order());
        }
        cur = next;
        i += 1;
    }
    proof {
        vstd::arithmetic::power2::lemma_pow2_pos(k as nat);
    }
    cur
}

/// The zeroth power is one.
pub proof fn lemma_fr_pow_unfold_zero(b: nat)
    ensures
        fr_pow(b, 0) == 1,
{
    vstd::arithmetic::div_mod::lemma_small_mod(1, fr_order());
}

/// The first power equals the (reduced) base.
pub proof fn lemma_fr_pow_unfold_one(b: nat)
    requires
        b < fr_order(),
    ensures
        fr_pow(b, 1) == b,
{
    vstd::arithmetic::div_mod::lemma_small_mod(1, fr_order());
    assert(fr_pow(b, 0) == 1);
    assert(fr_pow(b, 1) == (b * fr_pow(b, 0)) % fr_order());
    assert(b * 1 == b);
    vstd::arithmetic::div_mod::lemma_small_mod(b, fr_order());
}

/// Relies on ark_poly's radix-2 evaluation domain over the BW6-761 scalar
/// field: construction succeeds for every power-of-two size up to the
/// field's two-adicity (46), and returns the canonical primitive root of
/// unity of exactly that order — a power of the field's two-adic root,
/// whose order the field configuration fixes — together with its inverse
/// and the size's inverse, as canonical encodings.
#[verifier::external_body]
fn radix2_domain_params(log_size: u32) -> (r: Option<(Fe, Fe, Fe)>)
    requires
        log_size <= 46,
    ensures
        1 <= log_size ==> r is Some,
        r is Some ==> ({
            let t = r->0;
            let size = (1u64 << log_size) as nat;
            &&& t.0.wf() && t.1.wf() && t.2.wf()
            &&& fr_pow(t.0.val(), size) == 1
            &&& (forall|e: int| 1 <= e < size ==> #[trigger] fr_pow(t.0.val(), e as nat) != 1)
            &&& fmul(t.0.val(), t.1.val()) == 1
            &&& fmul(t.2.val(), size % fr_order()) == 1
        }),
{
    let size = 1usize << log_size;
    let d = match ark_poly::Radix2EvaluationDomain::<ark_bw6_761::Fr>::new(size) {
        Some(d) => d,
        None => return None,
    };
    let mut g: Vec<u8> = Vec::new();
    d.group_gen.serialize_compressed(&mut g).unwrap();
    let mut gi: Vec<u8> = Vec::new();
    d.group_gen_inv.serialize_compressed(&mut gi).unwrap();
    let mut si: Vec<u8> = Vec::new();
    d.size_inv.serialize_compressed(&mut si).unwrap();
    Some((Fe { bytes: g }, Fe { bytes: gi }, Fe { bytes: si }))
}

/// The generator of a well-formed domain has exact multiplicative order
/// `size`: its `size`-th power is one and no smaller positive power is.
pub proof fn lemma_generator_exact_order(d: Domain)
    requires
        d.wf(),
    ensures
        fr_pow(d.group_gen.val(), d.size as nat) == 1,
        forall|e: int| 1 <= e < d.size ==> #[trigger] fr_pow(d.group_gen.val(), e as nat)
            != 1,
{
}

} // verus!
