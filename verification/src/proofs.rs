//! The proof: commitments, evaluations and two opening proofs, with its
//! fixed-size byte encoding.
//!
//! The encoding is a plain concatenation in a fixed order, so each scheme's
//! proof has one exact byte length; decoding a blob of any other length
//! fails before any cryptographic material is touched.

use vstd::prelude::*;
use crate::fe::{Fe, fe_from_bytes, bytes_val, fr_order};
use crate::points::{G1C, g1_bytes_ok, g1_is_valid};

verus! {

/// The three fixed accountability schemes.
#[derive(Clone, Copy, PartialEq, Eq, Structural, Debug)]
pub enum Scheme {
    Basic,
    Packed,
    Counting,
}

/// Number of first-round register commitments of a scheme.
pub open spec fn reg_comm_count(s: Scheme) -> nat {
    match s {
        Scheme::Basic => 2,
        Scheme::Packed => 3,
        Scheme::Counting => 4,
    }
}

/// Number of second-round commitments (packed only).
pub open spec fn add_comm_count(s: Scheme) -> nat {
    match s {
        Scheme::Basic => 0,
        Scheme::Packed => 2,
        Scheme::Counting => 0,
    }
}

/// Number of register evaluations carried in a proof.
pub open spec fn eval_count(s: Scheme) -> nat {
    match s {
        Scheme::Basic => 4,
        Scheme::Packed => 7,
        Scheme::Counting => 6,
    }
}

/// Total group elements in a proof: registers, second round, quotient and
/// the two opening proofs.
pub open spec fn comms_total(s: Scheme) -> nat {
    reg_comm_count(s) + add_comm_count(s) + 3
}

/// Total field elements in a proof: evaluations, quotient evaluation and
/// shifted linearization evaluation.
pub open spec fn fes_total(s: Scheme) -> nat {
    eval_count(s) + 2
}

/// The exact byte length of a serialized proof.
pub open spec fn proof_byte_len(s: Scheme) -> nat {
    comms_total(s) * 96 + fes_total(s) * 48
}

pub fn reg_comm_count_exec(s: Scheme) -> (r: usize)
    ensures
        r == reg_comm_count(s),
{
    match s {
        Scheme::Basic => 2,
        Scheme::Packed => 3,
        Scheme::Counting => 4,
    }
}

pub fn add_comm_count_exec(s: Scheme) -> (r: usize)
    ensures
        r == add_comm_count(s),
{
    match s {
        Scheme::Basic => 0,
        Scheme::Packed => 2,
        Scheme::Counting => 0,
    }
}

pub fn eval_count_exec(s: Scheme) -> (r: usize)
    ensures
        r == eval_count(s),
{
    match s {
        Scheme::Basic => 4,
        Scheme::Packed => 7,
        Scheme::Counting => 6,
    }
}

/// A proof, as transmitted to a verifier.
pub struct Proof {
    pub scheme: Scheme,
    pub register_commitments: Vec<G1C>,
    pub additional_commitments: Vec<G1C>,
    pub q_comm: G1C,
    pub register_evaluations: Vec<Fe>,
    pub q_zeta: Fe,
    pub r_zeta_omega: Fe,
    pub w_at_zeta_proof: G1C,
    pub r_at_zeta_omega_proof: G1C,
}

impl Proof {
    pub open spec fn wf(self) -> bool {
        &&& self.register_commitments@.len() == reg_comm_count(self.scheme)
        &&& self.additional_commitments@.len() == add_comm_count(self.scheme)
        &&& self.register_evaluations@.len() == eval_count(self.scheme)
        &&& (forall|i: int|
            0 <= i < self.register_commitments@.len() ==> (
            #[trigger] self.register_commitments@[i]).wf())
        &&& (forall|i: int|
            0 <= i < self.additional_commitments@.len() ==> (
            #[trigger] self.additional_commitments@[i]).wf())
        &&& (forall|i: int|
            0 <= i < self.register_evaluations@.len() ==> (
            #[trigger] self.register_evaluations@[i]).wf())
        &&& self.q_comm.wf()
        &&& self.q_zeta.wf()
        &&& self.r_zeta_omega.wf()
        &&& self.w_at_zeta_proof.wf()
        &&& self.r_at_zeta_omega_proof.wf()
    }

    /// The serialized form: all fields concatenated in declaration order.
    pub open spec fn bytes_spec(self) -> Seq<u8> {
        comms_bytes(self.register_commitments@) + comms_bytes(self.additional_commitments@)
            + self.q_comm.bytes@ + fes_bytes(self.register_evaluations@) + self.q_zeta.bytes@
            + self.r_zeta_omega.bytes@ + self.w_at_zeta_proof.bytes@
            + self.r_at_zeta_omega_proof.bytes@
    }
}

/// Concatenation of commitment encodings.
pub open spec fn comms_bytes(cs: Seq<G1C>) -> Seq<u8>
    decreases cs.len(),
{
    if cs.len() == 0 {
        Seq::empty()
    } else {
        comms_bytes(cs.drop_last()) + cs.last().bytes@
    }
}

/// Concatenation of field-element encodings.
pub open spec fn fes_bytes(es: Seq<Fe>) -> Seq<u8>
    decreases es.len(),
{
    if es.len() == 0 {
        Seq::empty()
    } else {
        fes_bytes(es.drop_last()) + es.last().bytes@
    }
}

pub proof fn lemma_comms_bytes_len(cs: Seq<G1C>)
    requires
        forall|i: int| 0 <= i < cs.len() ==> (#[trigger] cs[i]).wf(),
    ensures
        comms_bytes(cs).len() == 96 * cs.len(),
    decreases cs.len(),
{
    if cs.len() > 0 {
        lemma_comms_bytes_len(cs.drop_last());
    }
}

pub proof fn lemma_fes_bytes_len(es: Seq<Fe>)
    requires
        forall|i: int| 0 <= i < es.len() ==> (#[trigger] es[i]).wf(),
    ensures
        fes_bytes(es).len() == 48 * es.len(),
    decreases es.len(),
{
    if es.len() > 0 {
        lemma_fes_bytes_len(es.drop_last());
    }
}

/// Copies `len` bytes of `src` starting at `start`.
pub fn take_bytes(src: &Vec<u8>, start: usize, len: usize) -> (r: Vec<u8>)
    requires
        start + len <= src@.len(),
    ensures
        r@ == src@.subrange(start as int, start as int + len as int),
{
    let mut out: Vec<u8> = Vec::new();
    let mut i: usize = 0;
    let n = src.len();
    while i < len
        invariant
            i <= len,
            start + len <= n,
            n == src@.len(),
            out@ =~= src@.subrange(start as int, start as int + i as int),
        decreases len - i,
    {
        out.push(src[start + i]);
        proof {
            assert(out@ =~= src@.subrange(start as int, start as int + (i + 1) as int));
        }
        i += 1;
    }
    out
}

/// Appends the encodings of all commitments.
pub fn append_comms(dst: &mut Vec<u8>, cs: &Vec<G1C>)
    ensures
        final(dst)@ == old(dst)@ + comms_bytes(cs@),
{
    let n = cs.len();
    let mut i: usize = 0;
    proof {
        assert(comms_bytes(cs@.take(0)) =~= Seq::<u8>::empty());
        assert(dst@ =~= dst@ + comms_bytes(cs@.take(0)));
    }
    while i < n
        invariant
            i <= n,
            n == cs@.len(),
            dst@ == old(dst)@ + comms_bytes(cs@.take(i as int)),
        decreases n - i,
    {
        crate::keyset::append_bytes(dst, &cs[i].bytes);
        proof {
            assert(cs@.take(i + 1 as int).drop_last() =~= cs@.take(i as int));
            assert(cs@.take(i + 1 as int).last() == cs@[i as int]);
            assert(comms_bytes(cs@.take(i + 1 as int)) == comms_bytes(cs@.take(i as int))
                + cs@[i as int].bytes@);
            assert(dst@ =~= old(dst)@ + comms_bytes(cs@.take(i + 1 as int)));
        }
        i += 1;
    }
    proof {
        assert(cs@.take(n as int) =~= cs@);
    }
}

/// Appends the encodings of all field elements.
pub fn append_fes(dst: &mut Vec<u8>, es: &Vec<Fe>)
    ensures
        final(dst)@ == old(dst)@ + fes_bytes(es@),
{
    let n = es.len();
    let mut i: usize = 0;
    proof {
        assert(fes_bytes(es@.take(0)) =~= Seq::<u8>::empty());
        assert(dst@ =~= dst@ + fes_bytes(es@.take(0)));
    }
    while i < n
        invariant
            i <= n,
            n == es@.len(),
            dst@ == old(dst)@ + fes_bytes(es@.take(i as int)),
        decreases n - i,
    {
        crate::keyset::append_bytes(dst, &es[i].bytes);
        proof {
            assert(es@.take(i + 1 as int).drop_last() =~= es@.take(i as int));
            assert(es@.take(i + 1 as int).last() == es@[i as int]);
            assert(fes_bytes(es@.take(i + 1 as int)) == fes_bytes(es@.take(i as int))
                + es@[i as int].bytes@);
            assert(dst@ =~= old(dst)@ + fes_bytes(es@.take(i + 1 as int)));
        }
        i += 1;
    }
    proof {
        assert(es@.take(n as int) =~= es@);
    }
}

/// Every 96-byte slot in the region is a valid curve-point encoding.
pub open spec fn comms_region_ok(b: Seq<u8>, off: int, count: int) -> bool {
    forall|j: int|
        0 <= j < count ==> g1_bytes_ok(#[trigger] b.subrange(off + 96 * j, off + 96 * j + 96))
}

/// Every 48-byte slot in the region is a canonical field-element encoding.
pub open spec fn fes_region_ok(b: Seq<u8>, off: int, count: int) -> bool {
    forall|j: int|
        0 <= j < count ==> bytes_val(#[trigger] b.subrange(off + 48 * j, off + 48 * j + 48))
            < fr_order()
}

/// Parses `count` commitment encodings at byte offset `off`, validating
/// each as a curve point.
fn parse_comms(bytes: &Vec<u8>, off: usize, count: usize) -> (r: Option<Vec<G1C>>)
    requires
        off + 96 * count <= bytes@.len(),
    ensures
        r is Some <==> comms_region_ok(bytes@, off as int, count as int),
        r is Some ==> r->0@.len() == count && (forall|j: int|
            0 <= j < count ==> (#[trigger] r->0@[j]).wf()) && comms_bytes(r->0@)
            == bytes@.subrange(off as int, off + 96 * count),
{
    let n = bytes.len();
    let mut out: Vec<G1C> = Vec::new();
    let mut i: usize = 0;
    proof {
        assert(comms_bytes(out@) =~= bytes@.subrange(off as int, off as int));
    }
    while i < count
        invariant
            i <= count,
            off + 96 * count <= n,
            n == bytes@.len(),
            out@.len() == i,
            forall|j: int| 0 <= j < i ==> (#[trigger] out@[j]).wf(),
            comms_region_ok(bytes@, off as int, i as int),
            comms_bytes(out@) == bytes@.subrange(off as int, off + 96 * (i as int)),
        decreases count - i,
    {
        let chunk = take_bytes(bytes, off + 96 * i, 96);
        let c = G1C { bytes: chunk };
        if !g1_is_valid(&c) {
            proof {
                let b = bytes@;
                let o = off as int;
                let ii = i as int;
                assert(!comms_region_ok(b, o, count as int)) by {
                    if comms_region_ok(b, o, count as int) {
                        assert(g1_bytes_ok(b.subrange(o + 96 * ii, o + 96 * ii + 96)));
                    }
                }
            }
            return None;
        }
        let ghost prev = out@;
        out.push(c);
        proof {
            let b = bytes@;
            let o = off as int;
            let ii = i as int;
            assert(out@.drop_last() =~= prev);
            assert(comms_bytes(out@) == comms_bytes(prev) + out@.last().bytes@);
            assert(b.subrange(o, o + 96 * (ii + 1)) =~= b.subrange(o, o + 96 * ii)
                + b.subrange(o + 96 * ii, o + 96 * ii + 96));
            assert forall|j: int| 0 <= j < ii + 1 implies g1_bytes_ok(
                #[trigger] b.subrange(o + 96 * j, o + 96 * j + 96),
            ) by {
                if j < ii {
                    assert(comms_region_ok(b, o, ii));
                } else {
                    assert(g1_bytes_ok(out@.last().bytes@));
                    assert(out@.last().bytes@ == b.subrange(o + 96 * ii, o + 96 * ii + 96));
                }
            }
        }
        i += 1;
    }
    Some(out)
}

/// Parses one commitment encoding at byte offset `off`, validating it as a
/// curve point.
fn parse_comm(bytes: &Vec<u8>, off: usize) -> (r: Option<G1C>)
    requires
        off + 96 <= bytes@.len(),
    ensures
        r is Some <==> g1_bytes_ok(bytes@.subrange(off as int, off + 96)),
        r is Some ==> r->0.wf() && r->0.bytes@ == bytes@.subrange(off as int, off + 96),
{
    let chunk = take_bytes(bytes, off, 96);
    let c = G1C { bytes: chunk };
    if g1_is_valid(&c) {
        Some(c)
    } else {
        None
    }
}

/// Parses `count` field-element encodings at byte offset `off`; each must
/// be canonical.
fn parse_fes(bytes: &Vec<u8>, off: usize, count: usize) -> (r: Option<Vec<Fe>>)
    requires
        off + 48 * count <= bytes@.len(),
    ensures
        r is Some <==> fes_region_ok(bytes@, off as int, count as int),
        r is Some ==> r->0@.len() == count && (forall|j: int|
            0 <= j < count ==> (#[trigger] r->0@[j]).wf()) && fes_bytes(r->0@)
            == bytes@.subrange(off as int, off + 48 * count),
{
    let n = bytes.len();
    let mut out: Vec<Fe> = Vec::new();
    let mut i: usize = 0;
    proof {
        assert(fes_bytes(out@) =~= bytes@.subrange(off as int, off as int));
    }
    while i < count
        invariant
            i <= count,
            off + 48 * count <= n,
            n == bytes@.len(),
            out@.len() == i,
            forall|j: int| 0 <= j < i ==> (#[trigger] out@[j]).wf(),
            fes_region_ok(bytes@, off as int, i as int),
            fes_bytes(out@) == bytes@.subrange(off as int, off + 48 * (i as int)),
        decreases count - i,
    {
        let chunk = take_bytes(bytes, off + 48 * i, 48);
        match fe_from_bytes(&chunk) {
            None => {
                proof {
                    let b = bytes@;
                    let o = off as int;
                    let ii = i as int;
                    assert(!fes_region_ok(b, o, count as int)) by {
                        if fes_region_ok(b, o, count as int) {
                            assert(bytes_val(b.subrange(o + 48 * ii, o + 48 * ii + 48))
                                < fr_order());
                        }
                    }
                }
                return None;
            },
            Some(e) => {
                let ghost prev = out@;
                out.push(e);
                proof {
                    let b = bytes@;
                    let o = off as int;
                    let ii = i as int;
                    assert(out@.drop_last() =~= prev);
                    assert(fes_bytes(out@) == fes_bytes(prev) + e.bytes@);
                    assert(b.subrange(o, o + 48 * (ii + 1)) =~= b.subrange(o, o + 48 * ii)
                        + b.subrange(o + 48 * ii, o + 48 * ii + 48));
                    assert forall|j: int| 0 <= j < ii + 1 implies bytes_val(
                        #[trigger] b.subrange(o + 48 * j, o + 48 * j + 48),
                    ) < fr_order() by {
                        if j < ii {
                            assert(fes_region_ok(b, o, ii));
                        } else {
                            assert(e.bytes@ == b.subrange(o + 48 * ii, o + 48 * ii + 48));
                        }
                    }
                }
            },
        }
        i += 1;
    }
    Some(out)
}

/// Parses one field-element encoding at byte offset `off`.
fn parse_fe(bytes: &Vec<u8>, off: usize) -> (r: Option<Fe>)
    requires
        off + 48 <= bytes@.len(),
    ensures
        r is Some <==> bytes_val(bytes@.subrange(off as int, off + 48)) < fr_order(),
        r is Some ==> r->0.wf() && r->0.bytes@ == bytes@.subrange(off as int, off + 48),
{
    let chunk = take_bytes(bytes, off, 48);
    fe_from_bytes(&chunk)
}

/// Every condition a byte string must meet to decode as a proof of the
/// scheme: the exact length, a valid curve point in every commitment slot,
/// and a canonical field element in every evaluation slot.
pub open spec fn decode_ok(s: Scheme, b: Seq<u8>) -> bool {
    let rc = reg_comm_count(s) as int;
    let ac = add_comm_count(s) as int;
    let ec = eval_count(s) as int;
    let fe_off = 96 * (rc + ac + 1);
    let tail = fe_off + 48 * (ec + 2);
    &&& b.len() == proof_byte_len(s)
    &&& comms_region_ok(b, 0, rc)
    &&& comms_region_ok(b, 96 * rc, ac)
    &&& g1_bytes_ok(b.subrange(96 * (rc + ac), 96 * (rc + ac) + 96))
    &&& fes_region_ok(b, fe_off, ec)
    &&& bytes_val(b.subrange(fe_off + 48 * ec, fe_off + 48 * ec + 48)) < fr_order()
    &&& bytes_val(b.subrange(fe_off + 48 * ec + 48, fe_off + 48 * ec + 96)) < fr_order()
    &&& g1_bytes_ok(b.subrange(tail, tail + 96))
    &&& g1_bytes_ok(b.subrange(tail + 96, tail + 192))
}

impl Proof {
    /// Parses a serialized proof of the given scheme. A blob of the wrong
    /// length is rejected before any of its contents is looked at.
    pub fn from_bytes(s: Scheme, bytes: &Vec<u8>) -> (r: Option<Proof>)
        ensures
            r is Some <==> decode_ok(s, bytes@),
            r is Some ==> r->0.wf() && r->0.scheme == s && r->0.bytes_spec() == bytes@,
    {
        let rc = reg_comm_count_exec(s);
        let ac = add_comm_count_exec(s);
        let ec = eval_count_exec(s);
        let expected = (rc + ac + 3) * 96 + (ec + 2) * 48;
        if bytes.len() != expected {
            return None;
        }
        let c1 = rc + ac + 1;
        let fe_off = 96 * c1;
        let tail = fe_off + 48 * (ec + 2);
        let reg = match parse_comms(bytes, 0, rc) {
            None => {
                return None;
            },
            Some(v) => v,
        };
        let add = match parse_comms(bytes, 96 * rc, ac) {
            None => {
                return None;
            },
            Some(v) => v,
        };
        let q_comm = match parse_comm(bytes, 96 * (rc + ac)) {
            None => {
                return None;
            },
            Some(c) => c,
        };
        let evals = match parse_fes(bytes, fe_off, ec) {
            None => {
                return None;
            },
            Some(v) => v,
        };
        let q_zeta = match parse_fe(bytes, fe_off + 48 * ec) {
            None => {
                return None;
            },
            Some(e) => e,
        };
        let r_zeta_omega = match parse_fe(bytes, fe_off + 48 * ec + 48) {
            None => {
                return None;
            },
            Some(e) => e,
        };
        let w_proof = match parse_comm(bytes, tail) {
            None => {
                return None;
            },
            Some(c) => c,
        };
        let r_proof = match parse_comm(bytes, tail + 96) {
            None => {
                return None;
            },
            Some(c) => c,
        };
        let p = Proof {
            scheme: s,
            register_commitments: reg,
            additional_commitments: add,
            q_comm,
            register_evaluations: evals,
            q_zeta,
            r_zeta_omega,
            w_at_zeta_proof: w_proof,
            r_at_zeta_omega_proof: r_proof,
        };
        proof {
            assert(p.bytes_spec() =~= bytes@);
        }
        Some(p)
    }
}

impl Proof {
    /// Serializes the proof; the length depends on the scheme alone.
    pub fn to_bytes(&self) -> (r: Vec<u8>)
        requires
            self.wf(),
        ensures
            r@ == self.bytes_spec(),
            r@.len() == proof_byte_len(self.scheme),
    {
        let mut out: Vec<u8> = Vec::new();
        append_comms(&mut out, &self.register_commitments);
        append_comms(&mut out, &self.additional_commitments);
        crate::keyset::append_bytes(&mut out, &self.q_comm.bytes);
        append_fes(&mut out, &self.register_evaluations);
        crate::keyset::append_bytes(&mut out, &self.q_zeta.bytes);
        crate::keyset::append_bytes(&mut out, &self.r_zeta_omega.bytes);
        crate::keyset::append_bytes(&mut out, &self.w_at_zeta_proof.bytes);
        crate::keyset::append_bytes(&mut out, &self.r_at_zeta_omega_proof.bytes);
        proof {
            lemma_comms_bytes_len(self.register_commitments@);
            lemma_comms_bytes_len(self.additional_commitments@);
            lemma_fes_bytes_len(self.register_evaluations@);
        }
        out
    }
}

} // verus!
