//! Public inputs: the claimed aggregate key together with the
//! accountability witness — the full bitmask for the accountable schemes,
//! or a participant count for the counting scheme.

use vstd::prelude::*;
use crate::points::AffG1;
use crate::bitmask::{Bitmask, bitmask_bytes_spec, count_ones_spec};
use crate::fe::{u64_le_bytes, u64_le_bytes_spec, fe_dup};
use crate::keyset::append_bytes;

verus! {

/// What a verifier learns out of band: an aggregate key and a witness
/// derived from the bitmask.
pub trait PublicInput: Sized {
    /// Internal consistency of the value.
    spec fn wf_spec(self) -> bool;

    /// The fixed transcript encoding.
    spec fn bytes_spec(self) -> Seq<u8>;

    /// Whether the value is what `new` builds from the given key and bits.
    spec fn matches(self, apk: AffG1, bits: Seq<bool>) -> bool;

    /// Builds the public input for a proof over the given bitmask.
    fn new(apk: &AffG1, bitmask: &Bitmask) -> (r: Self)
        requires
            apk.wf(),
        ensures
            r.wf_spec(),
            r.matches(*apk, bitmask@);

    /// Encodes the value for transcript absorption.
    fn to_transcript_bytes(&self) -> (r: Vec<u8>)
        requires
            self.wf_spec(),
        ensures
            r@ == self.bytes_spec();
}

/// Public input of the basic and packed schemes: the key and the bitmask.
pub struct AccountablePublicInput {
    pub apk: AffG1,
    pub bitmask: Bitmask,
}

impl PublicInput for AccountablePublicInput {
    open spec fn wf_spec(self) -> bool {
        self.apk.wf()
    }

    open spec fn bytes_spec(self) -> Seq<u8> {
        self.apk.x.bytes@ + self.apk.y.bytes@ + bitmask_bytes_spec(self.bitmask@)
    }

    open spec fn matches(self, apk: AffG1, bits: Seq<bool>) -> bool {
        self.apk.x.val() == apk.x.val() && self.apk.y.val() == apk.y.val() && self.bitmask@
            == bits
    }

    fn new(apk: &AffG1, bitmask: &Bitmask) -> (r: Self)
    {
        let bits = bitmask.to_bits();
        AccountablePublicInput {
            apk: AffG1 { x: fe_dup(&apk.x), y: fe_dup(&apk.y) },
            bitmask: Bitmask::from_bits(bits.as_slice()),
        }
    }

    fn to_transcript_bytes(&self) -> (r: Vec<u8>)
    {
        let mut out: Vec<u8> = Vec::new();
        append_bytes(&mut out, &self.apk.x.bytes);
        append_bytes(&mut out, &self.apk.y.bytes);
        let tail = self.bitmask.to_transcript_bytes();
        append_bytes(&mut out, &tail);
        out
    }
}

/// Public input of the counting scheme: the key and the number of signers.
pub struct CountingPublicInput {
    pub apk: AffG1,
    pub count: usize,
}

impl PublicInput for CountingPublicInput {
    open spec fn wf_spec(self) -> bool {
        self.apk.wf()
    }

    open spec fn bytes_spec(self) -> Seq<u8> {
        self.apk.x.bytes@ + self.apk.y.bytes@ + u64_le_bytes_spec(self.count as u64)
    }

    open spec fn matches(self, apk: AffG1, bits: Seq<bool>) -> bool {
        self.apk.x.val() == apk.x.val() && self.apk.y.val() == apk.y.val() && self.count
            == count_ones_spec(bits)
    }

    fn new(apk: &AffG1, bitmask: &Bitmask) -> (r: Self)
    {
        CountingPublicInput {
            apk: AffG1 { x: fe_dup(&apk.x), y: fe_dup(&apk.y) },
            count: bitmask.count_ones(),
        }
    }

    fn to_transcript_bytes(&self) -> (r: Vec<u8>)
    {
        let mut out: Vec<u8> = Vec::new();
        append_bytes(&mut out, &self.apk.x.bytes);
        append_bytes(&mut out, &self.apk.y.bytes);
        let tail = u64_le_bytes(self.count as u64);
        append_bytes(&mut out, &tail);
        out
    }
}

} // verus!
