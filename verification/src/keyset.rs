//! The keyset commitment: commitments to the two coordinate polynomials of
//! the signer set, interpolated over the evaluation domain, plus the
//! domain's log-size.

use vstd::prelude::*;
use crate::points::G1C;
use crate::fe::{u32_le_bytes, u32_le_bytes_spec};

verus! {

/// Commitments to the x- and y-coordinate polynomials of the signer set.
pub struct KeysetCommitment {
    pub pks_x_comm: G1C,
    pub pks_y_comm: G1C,
    pub log_domain_size: u32,
}

impl KeysetCommitment {
    pub open spec fn wf(self) -> bool {
        self.pks_x_comm.wf() && self.pks_y_comm.wf()
    }

    /// The fixed transcript encoding of the commitment.
    pub open spec fn bytes_spec(self) -> Seq<u8> {
        self.pks_x_comm.bytes@ + self.pks_y_comm.bytes@ + u32_le_bytes_spec(self.log_domain_size)
    }

    /// Encodes the commitment for transcript absorption.
    pub fn to_transcript_bytes(&self) -> (r: Vec<u8>)
        requires
            self.wf(),
        ensures
            r@ == self.bytes_spec(),
    {
        let mut out: Vec<u8> = Vec::new();
        append_bytes(&mut out, &self.pks_x_comm.bytes);
        append_bytes(&mut out, &self.pks_y_comm.bytes);
        let tail = u32_le_bytes(self.log_domain_size);
        append_bytes(&mut out, &tail);
        out
    }
}

/// Appends all of `src` to `dst`.
pub fn append_bytes(dst: &mut Vec<u8>, src: &Vec<u8>)
    ensures
        final(dst)@ == old(dst)@ + src@,
{
    let n = src.len();
    let mut i: usize = 0;
    while i < n
        invariant
            i <= n,
            n == src@.len(),
            dst@ == old(dst)@ + src@.take(i as int),
        decreases n - i,
    {
        dst.push(src[i]);
        proof {
            assert(old(dst)@ + src@.take(i + 1 as int) =~= (old(dst)@ + src@.take(i as int)).push(
                src@[i as int],
            ));
        }
        i += 1;
    }
    proof {
        assert(src@.take(n as int) =~= src@);
        assert(dst@ =~= old(dst)@ + src@);
    }
}

} // verus!
