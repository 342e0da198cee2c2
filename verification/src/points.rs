//! Curve points.
//!
//! Points of BLS12-377 G1 (public keys, the aggregate key) live in the base
//! field that equals the scalar field of BW6-761, so they are carried as
//! coordinate pairs of field elements and all logic on them is verified.
//! Points of BW6-761 (commitments, opening proofs) are carried as their
//! 96-byte compressed encodings; arkworks does the group arithmetic behind
//! trusted wrappers, and since a compressed encoding is canonical, each
//! operation's result is a function of the input encodings alone and is
//! pinned by a named result, the way the field layer pins its values.

use vstd::prelude::*;
use crate::fe::{Fe, fsub, fmul, finv, fr_sub, fr_mul, fr_inv, fr_from_u64};
use ark_serialize::CanonicalDeserialize;
use ark_serialize::CanonicalSerialize;
use ark_ec::CurveGroup;
use ark_ec::pairing::Pairing;

verus! {

/// Number of bytes in a compressed BW6-761 point encoding.
pub const G1C_BYTES: usize = 96;

/// An affine point of BLS12-377 G1, as coordinates in its base field.
#[derive(Clone, Debug)]
pub struct AffG1 {
    pub x: Fe,
    pub y: Fe,
}

impl AffG1 {
    pub open spec fn wf(self) -> bool {
        self.x.wf() && self.y.wf()
    }
}

/// A compressed encoding of a BW6-761 G1 point (a commitment or an opening
/// proof); its validity is only decided when it is used.
#[derive(Clone, Debug)]
pub struct G1C {
    pub bytes: Vec<u8>,
}

impl G1C {
    pub open spec fn wf(self) -> bool {
        self.bytes@.len() == G1C_BYTES
    }
}

/// A compressed encoding of a BW6-761 G2 point (a verifying-key element).
#[derive(Clone, Debug)]
pub struct G2C {
    pub bytes: Vec<u8>,
}

impl G2C {
    pub open spec fn wf(self) -> bool {
        self.bytes@.len() == G1C_BYTES
    }
}

/// An owned copy of a point encoding.
pub fn g1c_dup(c: &G1C) -> (r: G1C)
    ensures
        r.bytes@ == c.bytes@,
        r.wf() == c.wf(),
{
    let n = c.bytes.len();
    let bytes = crate::proofs::take_bytes(&c.bytes, 0, n);
    proof {
        assert(c.bytes@.subrange(0, n as int) =~= c.bytes@);
    }
    G1C { bytes }
}

/// The fixed point with coordinates (0, 1): it lies on no prime-order
/// subgroup of BLS12-377 G1, which makes it a safe seed for the partial sums.
pub fn point_in_g1_complement() -> (r: AffG1)
    ensures
        r.wf(),
        r.x.val() == 0,
        r.y.val() == 1,
{
    let x = fr_from_u64(0);
    let y = fr_from_u64(1);
    AffG1 { x, y }
}

/// The slope of the chord through two points with distinct x-coordinates.
pub open spec fn chord_lambda(ax: nat, ay: nat, bx: nat, by: nat) -> nat {
    fmul(fsub(by, ay), finv(fsub(bx, ax)))
}

/// The x-coordinate of the chord sum.
pub open spec fn chord_x(ax: nat, ay: nat, bx: nat, by: nat) -> nat {
    let lam = chord_lambda(ax, ay, bx, by);
    fsub(fsub(fmul(lam, lam), ax), bx)
}

/// The y-coordinate of the chord sum.
pub open spec fn chord_y(ax: nat, ay: nat, bx: nat, by: nat) -> nat {
    let lam = chord_lambda(ax, ay, bx, by);
    fsub(fmul(lam, fsub(ax, chord_x(ax, ay, bx, by))), ay)
}

/// Adds two affine points by the chord rule; distinct x-coordinates are
/// required for the slope to exist.
pub fn affine_add(a: &AffG1, b: &AffG1) -> (r: Option<AffG1>)
    requires
        a.wf(),
        b.wf(),
    ensures
        r is Some <==> a.x.val() != b.x.val(),
        r is Some ==> r->0.wf() && r->0.x.val() == chord_x(
            a.x.val(),
            a.y.val(),
            b.x.val(),
            b.y.val(),
        ) && r->0.y.val() == chord_y(a.x.val(), a.y.val(), b.x.val(), b.y.val()),
{
    let dx = fr_sub(&b.x, &a.x);
    let dy = fr_sub(&b.y, &a.y);
    proof {
        crate::fe::lemma_fsub_zero_iff(b.x.val(), a.x.val());
    }
    match fr_inv(&dx) {
        None => None,
        Some(dx_inv) => {
            let lam = fr_mul(&dy, &dx_inv);
            let lam_sq = fr_mul(&lam, &lam);
            let x3 = fr_sub(&fr_sub(&lam_sq, &a.x), &b.x);
            let y3 = fr_sub(&fr_mul(&lam, &fr_sub(&a.x, &x3)), &a.y);
            proof {
                crate::fe::lemma_finv_is(dx.val(), dx_inv.val());
            }
            Some(AffG1 { x: x3, y: y3 })
        },
    }
}

/// Whether the bytes are a valid compressed encoding of a BW6-761 G1 point.
pub uninterp spec fn g1_bytes_ok(c: Seq<u8>) -> bool;

/// Whether the bytes are a valid compressed encoding of a BW6-761 G2 point.
pub uninterp spec fn g2_bytes_ok(c: Seq<u8>) -> bool;

/// The compressed encoding of the sum of the two encoded points.
pub uninterp spec fn g1_add_of(a: Seq<u8>, b: Seq<u8>) -> Seq<u8>;

/// The compressed encoding of the encoded point scaled by the scalar value.
pub uninterp spec fn g1_mul_of(p: Seq<u8>, s: nat) -> Seq<u8>;

/// Whether the encoded point passes the prime-order-subgroup test.
pub uninterp spec fn g1_subgroup_of(p: Seq<u8>) -> bool;

/// The canonical serialization of the pairing of the two encoded points;
/// two pairing values are equal exactly when these bytes are.
pub uninterp spec fn pairing_of(a: Seq<u8>, b: Seq<u8>) -> Seq<u8>;

/// Relies on arkworks compressed deserialization of BW6-761 G1, which
/// checks the point is on the curve and in the right subgroup; success
/// depends on the bytes alone.
#[verifier::external_body]
pub fn g1_is_valid(c: &G1C) -> (r: bool)
    requires
        c.wf(),
    ensures
        r == g1_bytes_ok(c.bytes@),
{
    ark_bw6_761::G1Affine::deserialize_compressed(&c.bytes[..]).is_ok()
}

/// Relies on arkworks compressed deserialization of BW6-761 G2, which
/// checks the point is on the curve and in the right subgroup; success
/// depends on the bytes alone.
#[verifier::external_body]
pub fn g2_is_valid(c: &G2C) -> (r: bool)
    requires
        c.wf(),
    ensures
        r == g2_bytes_ok(c.bytes@),
{
    ark_bw6_761::G2Affine::deserialize_compressed(&c.bytes[..]).is_ok()
}

/// Relies on arkworks group addition on BW6-761 G1; the sum of two valid
/// points re-encodes to a valid encoding.
#[verifier::external_body]
pub(crate) fn g1_add(a: &G1C, b: &G1C) -> (r: G1C)
    requires
        a.wf(),
        b.wf(),
        g1_bytes_ok(a.bytes@),
        g1_bytes_ok(b.bytes@),
    ensures
        r.wf(),
        r.bytes@ == g1_add_of(a.bytes@, b.bytes@),
        g1_bytes_ok(r.bytes@),
{
    let x = ark_bw6_761::G1Affine::deserialize_compressed(&a.bytes[..]).unwrap();
    let y = ark_bw6_761::G1Affine::deserialize_compressed(&b.bytes[..]).unwrap();
    let s = (x + y).into_affine();
    let mut out: Vec<u8> = Vec::new();
    s.serialize_compressed(&mut out).unwrap();
    G1C { bytes: out }
}

/// Relies on arkworks scalar multiplication on BW6-761 G1; the scalar is
/// the canonical little-endian encoding of a field element, and a scaled
/// valid point re-encodes to a valid encoding.
#[verifier::external_body]
pub(crate) fn g1_mul(p: &G1C, s: &Fe) -> (r: G1C)
    requires
        p.wf(),
        s.wf(),
        g1_bytes_ok(p.bytes@),
    ensures
        r.wf(),
        r.bytes@ == g1_mul_of(p.bytes@, s.val()),
        g1_bytes_ok(r.bytes@),
{
    let x = ark_bw6_761::G1Affine::deserialize_compressed(&p.bytes[..]).unwrap();
    let f = ark_bw6_761::Fr::deserialize_compressed(&s.bytes[..]).unwrap();
    let m = (x * f).into_affine();
    let mut out: Vec<u8> = Vec::new();
    m.serialize_compressed(&mut out).unwrap();
    G1C { bytes: out }
}

/// Relies on arkworks' subgroup membership test for BW6-761 G1 (the
/// mandatory lazy check on accumulated elements).
#[verifier::external_body]
pub(crate) fn g1_subgroup_check(p: &G1C) -> (r: bool)
    requires
        p.wf(),
        g1_bytes_ok(p.bytes@),
    ensures
        r == g1_subgroup_of(p.bytes@),
{
    let x = ark_bw6_761::G1Affine::deserialize_compressed(&p.bytes[..]).unwrap();
    x.is_in_correct_subgroup_assuming_on_curve()
}

/// Relies on the arkworks BW6-761 pairing; the output is returned in its
/// canonical serialization, which decides equality of pairing values.
#[verifier::external_body]
pub(crate) fn bw6_pairing(a: &G1C, b: &G2C) -> (r: Vec<u8>)
    requires
        a.wf(),
        b.wf(),
        g1_bytes_ok(a.bytes@),
        g2_bytes_ok(b.bytes@),
    ensures
        r@ == pairing_of(a.bytes@, b.bytes@),
{
    let x = ark_bw6_761::G1Affine::deserialize_compressed(&a.bytes[..]).unwrap();
    let y = ark_bw6_761::G2Affine::deserialize_compressed(&b.bytes[..]).unwrap();
    let e = ark_bw6_761::BW6_761::pairing(x, y);
    let mut out: Vec<u8> = Vec::new();
    e.serialize_compressed(&mut out).unwrap();
    out
}

/// The encodings of a list of point encodings.
pub open spec fn comms_views(cs: Seq<G1C>) -> Seq<Seq<u8>> {
    cs.map_values(|c: G1C| c.bytes@)
}

/// The encoding of the multi-scalar combination of at least one term: the
/// i-th point scaled by the i-th scalar, all terms summed left to right.
pub open spec fn msm_of(ps: Seq<Seq<u8>>, ss: Seq<nat>) -> Seq<u8>
    recommends
        ps.len() == ss.len(),
        ps.len() >= 1,
    decreases ps.len(),
{
    if ps.len() <= 1 {
        g1_mul_of(ps[0], ss[0])
    } else {
        g1_add_of(msm_of(ps.drop_last(), ss.drop_last()), g1_mul_of(ps.last(), ss.last()))
    }
}

/// The multi-scalar combination, with verified bookkeeping over the
/// per-term wrappers: the result's encoding is the named combination of
/// the input encodings and scalar values.
pub fn g1_linear_combination(points: &Vec<G1C>, scalars: &Vec<Fe>) -> (r: G1C)
    requires
        points@.len() == scalars@.len(),
        points@.len() >= 1,
        forall|i: int| 0 <= i < points@.len() ==> (#[trigger] points@[i]).wf(),
        forall|i: int| 0 <= i < points@.len() ==> g1_bytes_ok(#[trigger] points@[i].bytes@),
        forall|i: int| 0 <= i < scalars@.len() ==> (#[trigger] scalars@[i]).wf(),
    ensures
        r.wf(),
        g1_bytes_ok(r.bytes@),
        r.bytes@ == msm_of(comms_views(points@), crate::utils::vals_of(scalars@)),
{
    let n = points.len();
    let mut acc = g1_mul(&points[0], &scalars[0]);
    let mut i: usize = 1;
    proof {
        let ps = comms_views(points@);
        let ss = crate::utils::vals_of(scalars@);
        assert(ps.take(1).len() == 1);
        assert(acc.bytes@ == msm_of(ps.take(1), ss.take(1)));
    }
    while i < n
        invariant
            1 <= i <= n,
            n == points@.len(),
            n == scalars@.len(),
            forall|j: int| 0 <= j < n ==> (#[trigger] points@[j]).wf(),
            forall|j: int| 0 <= j < n ==> g1_bytes_ok(#[trigger] points@[j].bytes@),
            forall|j: int| 0 <= j < n ==> (#[trigger] scalars@[j]).wf(),
            acc.wf(),
            g1_bytes_ok(acc.bytes@),
            acc.bytes@ == msm_of(
                comms_views(points@).take(i as int),
                crate::utils::vals_of(scalars@).take(i as int),
            ),
        decreases n - i,
    {
        let term = g1_mul(&points[i], &scalars[i]);
        acc = g1_add(&acc, &term);
        proof {
            let ps = comms_views(points@);
            let ss = crate::utils::vals_of(scalars@);
            assert(ps.take(i + 1 as int).drop_last() =~= ps.take(i as int));
            assert(ss.take(i + 1 as int).drop_last() =~= ss.take(i as int));
            assert(ps.take(i + 1 as int).last() == points@[i as int].bytes@);
            assert(ss.take(i + 1 as int).last() == scalars@[i as int].val());
        }
        i += 1;
    }
    proof {
        assert(comms_views(points@).take(n as int) =~= comms_views(points@));
        assert(crate::utils::vals_of(scalars@).take(n as int) =~= crate::utils::vals_of(
            scalars@,
        ));
    }
    acc
}

} // verus!
