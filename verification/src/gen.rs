//! Fixed-width limb splitting for exporting values to an external
//! verifying environment whose words are 256 bits wide: a big-endian byte
//! string is cut into 32-byte limbs, highest limb first (the highest limb
//! may be shorter).

use vstd::prelude::*;
use crate::fe::Fe;
use crate::proofs::take_bytes;

verus! {

/// The byte string reversed.
pub open spec fn rev_bytes(s: Seq<u8>) -> Seq<u8> {
    Seq::new(s.len(), |i: int| s[s.len() - 1 - i])
}

/// Reverses a byte string: a little-endian encoding becomes big-endian.
pub fn reverse_bytes(src: &Vec<u8>) -> (r: Vec<u8>)
    ensures
        r@ == rev_bytes(src@),
{
    let n = src.len();
    let mut out: Vec<u8> = Vec::new();
    let mut i: usize = 0;
    while i < n
        invariant
            i <= n,
            n == src@.len(),
            out@.len() == i,
            forall|j: int| 0 <= j < i ==> out@[j] == src@[n - 1 - j],
        decreases n - i,
    {
        out.push(src[n - 1 - i]);
        i += 1;
    }
    proof {
        assert(out@ =~= rev_bytes(src@));
    }
    out
}

/// A 512-bit word as two big-endian limbs: the high limb `a` (what is
/// left above the lowest 32 bytes) and the low limb `b`.
pub struct Uint512 {
    pub a: Vec<u8>,
    pub b: Vec<u8>,
}

impl Uint512 {
    /// Splits a big-endian byte string above its lowest 32 bytes.
    pub fn from(bytes: Vec<u8>) -> (r: Uint512)
        requires
            bytes@.len() >= 32,
        ensures
            r.a@ == bytes@.take(bytes@.len() - 32),
            r.b@ == bytes@.skip(bytes@.len() - 32),
            r.a@ + r.b@ == bytes@,
    {
        let n = bytes.len();
        let a = take_bytes(&bytes, 0, n - 32);
        let b = take_bytes(&bytes, n - 32, 32);
        proof {
            assert(a@ =~= bytes@.take(bytes@.len() - 32));
            assert(b@ =~= bytes@.skip(bytes@.len() - 32));
            assert(a@ + b@ =~= bytes@);
        }
        Uint512 { a, b }
    }

    /// Splits a scalar-field element, written big-endian, into two limbs.
    pub fn from_fr(fr: &Fe) -> (r: Uint512)
        requires
            fr.wf(),
        ensures
            r.a@ + r.b@ == rev_bytes(fr.bytes@),
            r.b@.len() == 32,
    {
        let be = reverse_bytes(&fr.bytes);
        Uint512::from(be)
    }
}

/// A 768-bit word as three big-endian limbs, highest first.
pub struct Uint768 {
    pub a: Vec<u8>,
    pub b: Vec<u8>,
    pub c: Vec<u8>,
}

impl Uint768 {
    /// Splits a big-endian byte string into its lowest 32 bytes, the 32
    /// bytes above them, and whatever is left on top.
    pub fn from(bytes: Vec<u8>) -> (r: Uint768)
        requires
            bytes@.len() >= 64,
        ensures
            r.a@ == bytes@.take(bytes@.len() - 64),
            r.b@ == bytes@.subrange(bytes@.len() - 64, bytes@.len() - 32),
            r.c@ == bytes@.skip(bytes@.len() - 32),
            r.a@ + r.b@ + r.c@ == bytes@,
    {
        let n = bytes.len();
        let a = take_bytes(&bytes, 0, n - 64);
        let b = take_bytes(&bytes, n - 64, 32);
        let c = take_bytes(&bytes, n - 32, 32);
        proof {
            assert(a@ =~= bytes@.take(bytes@.len() - 64));
            assert(a@ + b@ + c@ =~= bytes@);
        }
        Uint768 { a, b, c }
    }
}

} // verus!
