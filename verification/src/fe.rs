//! Scalar-field elements of BW6-761, carried as canonical 48-byte
//! little-endian encodings.
//!
//! The arithmetic itself is done by arkworks behind trusted wrappers; every
//! wrapper states the result's integer value modulo the field order, so all
//! logic built on top is verified against exact modular arithmetic.

use vstd::prelude::*;
use ark_serialize::CanonicalDeserialize;
use ark_serialize::CanonicalSerialize;

verus! {

/// Number of bytes in the canonical encoding of a scalar-field element.
pub const FE_BYTES: usize = 48;

/// The order of the scalar field of BW6-761 (the base field of BLS12-377).
pub open spec fn fr_order() -> nat {
    258664426012969094010652733694893533536393512754914660539884262666720468348340822774968888139573360124440321458177nat
}

/// Integer value of a little-endian byte string.
pub open spec fn bytes_val(s: Seq<u8>) -> nat
    decreases s.len(),
{
    if s.len() == 0 {
        0
    } else {
        s[0] as nat + 256 * bytes_val(s.drop_first())
    }
}

/// Modular addition in the scalar field.
pub open spec fn fadd(a: nat, b: nat) -> nat {
    (a + b) % fr_order()
}

/// Modular subtraction in the scalar field.
pub open spec fn fsub(a: nat, b: nat) -> nat
    recommends
        b < fr_order(),
{
    (((a + fr_order() - b) % (fr_order() as int)) as nat)
}

/// Modular multiplication in the scalar field.
pub open spec fn fmul(a: nat, b: nat) -> nat {
    (a * b) % fr_order()
}

/// A scalar-field element: 48 canonical little-endian bytes.
#[derive(Clone, Debug)]
pub struct Fe {
    pub bytes: Vec<u8>,
}

impl Fe {
    /// The encoding is full-length and canonical (below the field order).
    pub open spec fn wf(self) -> bool {
        self.bytes@.len() == FE_BYTES && bytes_val(self.bytes@) < fr_order()
    }

    /// The integer value of the element.
    pub open spec fn val(self) -> nat {
        bytes_val(self.bytes@)
    }
}

/// The low byte and the remaining bytes of a little-endian string are its
/// value's remainder and quotient by 256.
pub proof fn lemma_bytes_val_head(s: Seq<u8>)
    requires
        s.len() > 0,
    ensures
        bytes_val(s) % 256 == s[0] as nat,
        bytes_val(s) / 256 == bytes_val(s.drop_first()),
{
    let rest = bytes_val(s.drop_first());
    assert(bytes_val(s) == s[0] as nat + 256 * rest);
    vstd::arithmetic::div_mod::lemma_fundamental_div_mod_converse(
        bytes_val(s) as int,
        256,
        rest as int,
        s[0] as int,
    );
}

/// Equal-length byte strings with the same value are equal.
pub proof fn lemma_bytes_val_injective(a: Seq<u8>, b: Seq<u8>)
    requires
        a.len() == b.len(),
    ensures
        bytes_val(a) == bytes_val(b) ==> a =~= b,
    decreases a.len(),
{
    if a.len() > 0 && bytes_val(a) == bytes_val(b) {
        lemma_bytes_val_head(a);
        lemma_bytes_val_head(b);
        lemma_bytes_val_injective(a.drop_first(), b.drop_first());
        assert(a[0] == b[0]);
        assert(a.drop_first() =~= b.drop_first());
        assert forall|i: int| 0 <= i < a.len() implies a[i] == b[i] by {
            if i > 0 {
                assert(a.drop_first()[i - 1] == b.drop_first()[i - 1]);
            }
        }
    }
}

/// The `n` little-endian bytes of `x` (higher bytes dropped).
pub open spec fn le_bytes_of(x: nat, n: nat) -> Seq<u8>
    decreases n,
{
    if n == 0 {
        Seq::empty()
    } else {
        seq![(x % 256) as u8] + le_bytes_of(x / 256, (n - 1) as nat)
    }
}

/// The eight little-endian bytes of a 64-bit integer.
pub open spec fn u64_le_bytes_spec(x: u64) -> Seq<u8> {
    le_bytes_of(x as nat, 8)
}

/// The four little-endian bytes of a 32-bit integer.
pub open spec fn u32_le_bytes_spec(x: u32) -> Seq<u8> {
    le_bytes_of(x as nat, 4)
}

proof fn lemma_le_bytes_of_len(x: nat, n: nat)
    ensures
        le_bytes_of(x, n).len() == n,
    decreases n,
{
    if n > 0 {
        lemma_le_bytes_of_len(x / 256, (n - 1) as nat);
    }
}

/// Little-endian encoding of an integer, low byte first.
fn le_bytes(x0: u64, n: usize) -> (r: Vec<u8>)
    ensures
        r@ == le_bytes_of(x0 as nat, n as nat),
        r@.len() == n,
{
    let mut out: Vec<u8> = Vec::new();
    let mut v: u64 = x0;
    let mut i: usize = 0;
    proof {
        lemma_le_bytes_of_len(x0 as nat, n as nat);
    }
    while i < n
        invariant
            i <= n,
            out@.len() == i,
            le_bytes_of(x0 as nat, n as nat) =~= out@ + le_bytes_of(v as nat, (n - i) as nat),
        decreases n - i,
    {
        let b: u8 = (v % 256) as u8;
        let ghost prev = out@;
        let ghost rest = le_bytes_of(v as nat / 256, (n - i - 1) as nat);
        out.push(b);
        proof {
            assert(le_bytes_of(v as nat, (n - i) as nat) == seq![b] + rest);
            assert(prev + (seq![b] + rest) =~= prev.push(b) + rest);
            assert(v as nat / 256 == (v / 256) as nat);
        }
        v = v / 256;
        i += 1;
    }
    proof {
        assert(le_bytes_of(v as nat, 0) =~= Seq::<u8>::empty());
        assert(out@ =~= out@ + le_bytes_of(v as nat, 0));
    }
    out
}

/// The eight little-endian bytes of a 64-bit integer.
pub fn u64_le_bytes(x: u64) -> (r: Vec<u8>)
    ensures
        r@ == u64_le_bytes_spec(x),
        r@.len() == 8,
{
    le_bytes(x, 8)
}

/// The four little-endian bytes of a 32-bit integer.
pub fn u32_le_bytes(x: u32) -> (r: Vec<u8>)
    ensures
        r@ == u32_le_bytes_spec(x),
        r@.len() == 4,
{
    le_bytes(x as u64, 4)
}

/// Relies on arkworks `Fr` addition; encodings are canonical little-endian.
#[verifier::external_body]
pub fn fr_add(a: &Fe, b: &Fe) -> (r: Fe)
    requires
        a.wf(),
        b.wf(),
    ensures
        r.wf(),
        r.val() == fadd(a.val(), b.val()),
{
    let x = ark_bw6_761::Fr::deserialize_compressed(&a.bytes[..]).unwrap();
    let y = ark_bw6_761::Fr::deserialize_compressed(&b.bytes[..]).unwrap();
    let mut out: Vec<u8> = Vec::new();
    (x + y).serialize_compressed(&mut out).unwrap();
    Fe { bytes: out }
}

/// Relies on arkworks `Fr` subtraction; encodings are canonical little-endian.
#[verifier::external_body]
pub fn fr_sub(a: &Fe, b: &Fe) -> (r: Fe)
    requires
        a.wf(),
        b.wf(),
    ensures
        r.wf(),
        r.val() == fsub(a.val(), b.val()),
{
    let x = ark_bw6_761::Fr::deserialize_compressed(&a.bytes[..]).unwrap();
    let y = ark_bw6_761::Fr::deserialize_compressed(&b.bytes[..]).unwrap();
    let mut out: Vec<u8> = Vec::new();
    (x - y).serialize_compressed(&mut out).unwrap();
    Fe { bytes: out }
}

/// Relies on arkworks `Fr` multiplication; encodings are canonical
/// little-endian.
#[verifier::external_body]
pub fn fr_mul(a: &Fe, b: &Fe) -> (r: Fe)
    requires
        a.wf(),
        b.wf(),
    ensures
        r.wf(),
        r.val() == fmul(a.val(), b.val()),
{
    let x = ark_bw6_761::Fr::deserialize_compressed(&a.bytes[..]).unwrap();
    let y = ark_bw6_761::Fr::deserialize_compressed(&b.bytes[..]).unwrap();
    let mut out: Vec<u8> = Vec::new();
    (x * y).serialize_compressed(&mut out).unwrap();
    Fe { bytes: out }
}

/// Relies on arkworks `Fr::inverse`: the inverse exists exactly for nonzero
/// elements, and multiplies with its argument to one.
#[verifier::external_body]
pub fn fr_inv(a: &Fe) -> (r: Option<Fe>)
    requires
        a.wf(),
    ensures
        r is Some <==> a.val() != 0,
        r is Some ==> r->0.wf() && fmul(r->0.val(), a.val()) == 1,
{
    let x = ark_bw6_761::Fr::deserialize_compressed(&a.bytes[..]).unwrap();
    match ark_ff::Field::inverse(&x) {
        Some(y) => {
            let mut out: Vec<u8> = Vec::new();
            y.serialize_compressed(&mut out).unwrap();
            Some(Fe { bytes: out })
        },
        None => None,
    }
}

/// Relies on arkworks `Fr::from(u64)`, which reduces the integer into the
/// field.
#[verifier::external_body]
pub fn fr_from_u64(x: u64) -> (r: Fe)
    ensures
        r.wf(),
        r.val() == (x as nat) % fr_order(),
{
    let f = ark_bw6_761::Fr::from(x);
    let mut out: Vec<u8> = Vec::new();
    f.serialize_compressed(&mut out).unwrap();
    Fe { bytes: out }
}

/// Relies on arkworks `Fr::from(u128)`, which reduces the integer into the
/// field.
#[verifier::external_body]
pub fn fr_from_u128(x: u128) -> (r: Fe)
    ensures
        r.wf(),
        r.val() == (x as nat) % fr_order(),
{
    let f = ark_bw6_761::Fr::from(x);
    let mut out: Vec<u8> = Vec::new();
    f.serialize_compressed(&mut out).unwrap();
    Fe { bytes: out }
}

/// Relies on arkworks `Fr::from_random_bytes`: sixteen little-endian bytes
/// always fit below the field order and are read as an integer.
#[verifier::external_body]
pub fn fr_from_16_bytes(b: &Vec<u8>) -> (r: Fe)
    requires
        b@.len() == 16,
    ensures
        r.wf(),
        r.val() == bytes_val(b@),
{
    let f = <ark_bw6_761::Fr as ark_ff::Field>::from_random_bytes(&b[..]).unwrap();
    let mut out: Vec<u8> = Vec::new();
    f.serialize_compressed(&mut out).unwrap();
    Fe { bytes: out }
}

/// Relies on arkworks `Fr` deserialization, which accepts exactly the
/// canonical encodings (48 bytes, value below the field order).
#[verifier::external_body]
pub fn fe_from_bytes(b: &Vec<u8>) -> (r: Option<Fe>)
    requires
        b@.len() == FE_BYTES,
    ensures
        r is Some <==> bytes_val(b@) < fr_order(),
        r is Some ==> r->0.bytes@ == b@,
{
    match ark_bw6_761::Fr::deserialize_compressed(&b[..]) {
        Ok(_) => Some(Fe { bytes: b.clone() }),
        Err(_) => None,
    }
}

/// The modular inverse of `a`, where one exists.
pub open spec fn finv(a: nat) -> nat {
    choose|x: nat| x < fr_order() && #[trigger] fmul(x, a) == 1
}

/// Inverses are unique.
pub proof fn lemma_inverse_unique(a: nat, x1: nat, x2: nat)
    requires
        x1 < fr_order(),
        x2 < fr_order(),
        fmul(x1, a) == 1,
        fmul(x2, a) == 1,
    ensures
        x1 == x2,
{
    lemma_fmul_assoc(x1, a, x2);
    lemma_fmul_one(x1);
    lemma_fmul_one(x2);
    assert(fmul(a, x2) == fmul(x2, a)) by {
        vstd::arithmetic::mul::lemma_mul_is_commutative(a as int, x2 as int);
    }
    assert(fmul(x1, fmul(a, x2)) == fmul(fmul(x1, a), x2));
    assert(fmul(1, x2) == fmul(x2, 1)) by {
        vstd::arithmetic::mul::lemma_mul_is_commutative(1, x2 as int);
    }
}

/// A witnessed inverse is the inverse.
pub proof fn lemma_finv_is(a: nat, x: nat)
    requires
        x < fr_order(),
        fmul(x, a) == 1,
    ensures
        finv(a) == x,
{
    assert(exists|y: nat| y < fr_order() && #[trigger] fmul(y, a) == 1);
    lemma_inverse_unique(a, finv(a), x);
}

/// Modular multiplication is associative.
pub proof fn lemma_fmul_assoc(a: nat, b: nat, c: nat)
    ensures
        fmul(fmul(a, b), c) == fmul(a, fmul(b, c)),
{
    let p = fr_order() as int;
    let x = a as int;
    let y = b as int;
    let z = c as int;
    vstd::arithmetic::div_mod::lemma_mul_mod_noop_general(x * y, z, p);
    vstd::arithmetic::div_mod::lemma_mul_mod_noop_general(x, y * z, p);
    vstd::arithmetic::mul::lemma_mul_is_associative(x, y, z);
}

/// One is neutral for modular multiplication of a reduced element.
pub proof fn lemma_fmul_one(a: nat)
    requires
        a < fr_order(),
    ensures
        fmul(a, 1) == a,
{
    vstd::arithmetic::div_mod::lemma_small_mod(a, fr_order());
}

/// Modular subtraction of reduced elements is zero exactly on equal inputs.
pub proof fn lemma_fsub_zero_iff(a: nat, b: nat)
    requires
        a < fr_order(),
        b < fr_order(),
    ensures
        (fsub(a, b) == 0) <==> (a == b),
{
    let p = fr_order() as int;
    let x = a + fr_order() - b;
    if a == b {
        vstd::arithmetic::div_mod::lemma_mod_self_0(p);
    } else if a > b {
        vstd::arithmetic::div_mod::lemma_fundamental_div_mod_converse(
            x as int,
            p,
            1,
            a as int - b as int,
        );
    } else {
        vstd::arithmetic::div_mod::lemma_small_mod(x as nat, fr_order());
    }
}

/// The zero element.
pub fn fe_zero() -> (r: Fe)
    ensures
        r.wf(),
        r.val() == 0,
{
    fr_from_u64(0)
}

/// The one element.
pub fn fe_one() -> (r: Fe)
    ensures
        r.wf(),
        r.val() == 1,
{
    fr_from_u64(1)
}

/// An owned copy of a field element.
pub fn fe_dup(a: &Fe) -> (r: Fe)
    ensures
        r.bytes@ =~= a.bytes@,
        r.wf() == a.wf(),
        r.val() == a.val(),
{
    let mut out: Vec<u8> = Vec::new();
    let mut i: usize = 0;
    let n = a.bytes.len();
    while i < n
        invariant
            i <= n,
            n == a.bytes@.len(),
            out@.len() == i,
            forall|j: int| 0 <= j < i ==> out@[j] == a.bytes@[j],
        decreases n - i,
    {
        out.push(a.bytes[i]);
        i += 1;
    }
    proof {
        assert(out@ =~= a.bytes@);
    }
    Fe { bytes: out }
}

/// An owned copy of a vector of field elements.
pub fn fe_dup_vec(a: &Vec<Fe>) -> (r: Vec<Fe>)
    ensures
        r@.len() == a@.len(),
        forall|i: int| 0 <= i < a@.len() ==> (#[trigger] r@[i]).bytes@ == a@[i].bytes@,
{
    let n = a.len();
    let mut out: Vec<Fe> = Vec::new();
    let mut i: usize = 0;
    while i < n
        invariant
            i <= n,
            n == a@.len(),
            out@.len() == i,
            forall|j: int| 0 <= j < i ==> (#[trigger] out@[j]).bytes@ == a@[j].bytes@,
        decreases n - i,
    {
        out.push(fe_dup(&a[i]));
        i += 1;
    }
    out
}

/// Byte-string equality, decided index by index.
pub fn bytes_equal(a: &Vec<u8>, b: &Vec<u8>) -> (r: bool)
    ensures
        r == (a@ == b@),
{
    let n = a.len();
    if n != b.len() {
        proof {
            assert(a@.len() != b@.len());
        }
        return false;
    }
    let mut i: usize = 0;
    while i < n
        invariant
            i <= n,
            n == a@.len(),
            n == b@.len(),
            forall|j: int| 0 <= j < i ==> a@[j] == b@[j],
        decreases n - i,
    {
        if a[i] != b[i] {
            proof {
                assert(a@[i as int] != b@[i as int]);
            }
            return false;
        }
        i += 1;
    }
    proof {
        assert(a@ =~= b@);
    }
    true
}

/// Value equality of field elements, decided on the canonical encodings.
pub fn fe_eq(a: &Fe, b: &Fe) -> (r: bool)
    requires
        a.wf(),
        b.wf(),
    ensures
        r == (a.val() == b.val()),
{
    proof {
        lemma_bytes_val_injective(a.bytes@, b.bytes@);
    }
    let mut i: usize = 0;
    while i < FE_BYTES
        invariant
            a.wf(),
            b.wf(),
            i <= FE_BYTES,
            forall|j: int| 0 <= j < i ==> a.bytes@[j] == b.bytes@[j],
            bytes_val(a.bytes@) == bytes_val(b.bytes@) ==> a.bytes@ =~= b.bytes@,
        decreases FE_BYTES - i,
    {
        if a.bytes[i] != b.bytes[i] {
            return false;
        }
        i += 1;
    }
    proof {
        assert(a.bytes@ =~= b.bytes@);
    }
    true
}

} // verus!
