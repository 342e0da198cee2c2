//! The participation bitmask: an ordered sequence of booleans, one per
//! signer slot.

use vstd::prelude::*;
use crate::fe::{Fe, fr_order, fadd, fe_zero, fr_add};

verus! {

/// Number of set bits in a sequence of booleans.
pub open spec fn count_ones_spec(s: Seq<bool>) -> nat
    decreases s.len(),
{
    if s.len() == 0 {
        0
    } else {
        (if s[0] {
            1nat
        } else {
            0nat
        }) + count_ones_spec(s.drop_first())
    }
}

/// The field value of a bit sequence read as a little-endian binary number.
pub open spec fn bits_field_val(s: Seq<bool>) -> nat
    decreases s.len(),
{
    if s.len() == 0 {
        0
    } else {
        ((if s[0] {
            1nat
        } else {
            0nat
        }) + 2 * bits_field_val(s.drop_first())) % fr_order()
    }
}

/// An ordered sequence of booleans recording which signers participated.
#[derive(Clone, Debug)]
pub struct Bitmask {
    bits: Vec<bool>,
}

impl View for Bitmask {
    type V = Seq<bool>;

    closed spec fn view(&self) -> Seq<bool> {
        self.bits@
    }
}

impl Bitmask {
    /// A bitmask holding exactly the given bits.
    pub fn from_bits(bits: &[bool]) -> (r: Bitmask)
        ensures
            r@ == bits@,
    {
        let n = bits.len();
        let mut v: Vec<bool> = Vec::new();
        let mut i: usize = 0;
        while i < n
            invariant
                i <= n,
                n == bits@.len(),
                v@ == bits@.take(i as int),
            decreases n - i,
        {
            v.push(bits[i]);
            proof {
                assert(bits@.take(i + 1 as int) =~= bits@.take(i as int).push(bits@[i as int]));
            }
            i += 1;
        }
        proof {
            assert(bits@.take(n as int) =~= bits@);
        }
        Bitmask { bits: v }
    }

    /// The number of bits.
    pub fn size(&self) -> (r: usize)
        ensures
            r == self@.len(),
    {
        self.bits.len()
    }

    /// The bit at `i`.
    pub fn at(&self, i: usize) -> (r: bool)
        requires
            i < self@.len(),
        ensures
            r == self@[i as int],
    {
        self.bits[i]
    }

    /// The number of set bits.
    pub fn count_ones(&self) -> (r: usize)
        ensures
            r == count_ones_spec(self@),
    {
        let n = self.bits.len();
        let mut c: usize = 0;
        let mut i: usize = 0;
        proof {
            assert(count_ones_spec(self@.take(0)) == 0) by {
                assert(self@.take(0) =~= Seq::<bool>::empty());
            }
        }
        while i < n
            invariant
                i <= n,
                n == self@.len(),
                c == count_ones_spec(self@.take(i as int)),
                c <= i,
            decreases n - i,
        {
            if self.bits[i] {
                c += 1;
            }
            proof {
                lemma_count_ones_take_step(self@, i as int);
            }
            i += 1;
        }
        proof {
            assert(self@.take(n as int) =~= self@);
        }
        c
    }

    /// The bits as a vector of booleans.
    pub fn to_bits(&self) -> (r: Vec<bool>)
        ensures
            r@ == self@,
    {
        let n = self.bits.len();
        let mut v: Vec<bool> = Vec::new();
        let mut i: usize = 0;
        while i < n
            invariant
                i <= n,
                n == self@.len(),
                v@ == self@.take(i as int),
            decreases n - i,
        {
            v.push(self.bits[i]);
            proof {
                assert(self@.take(i + 1 as int) =~= self@.take(i as int).push(self@[i as int]));
            }
            i += 1;
        }
        proof {
            assert(self@.take(n as int) =~= self@);
        }
        v
    }

    /// The transcript encoding: an eight-byte little-endian bit count
    /// followed by one byte per bit.
    pub fn to_transcript_bytes(&self) -> (r: Vec<u8>)
        ensures
            r@ == bitmask_bytes_spec(self@),
    {
        let n = self.bits.len();
        let mut out: Vec<u8> = crate::fe::u64_le_bytes(n as u64);
        let mut i: usize = 0;
        while i < n
            invariant
                i <= n,
                n == self@.len(),
                out@ == len_prefix_spec(self@) + bit_bytes_spec(self@.take(i as int)),
            decreases n - i,
        {
            let b: u8 = if self.bits[i] {
                1
            } else {
                0
            };
            out.push(b);
            proof {
                lemma_bit_bytes_take_step(self@, i as int);
            }
            i += 1;
        }
        proof {
            assert(self@.take(n as int) =~= self@);
        }
        out
    }
}

/// The eight-byte little-endian length prefix of a bitmask encoding.
pub open spec fn len_prefix_spec(s: Seq<bool>) -> Seq<u8> {
    crate::fe::u64_le_bytes_spec(s.len() as u64)
}

/// One byte per bit, one for a set bit and zero for a clear one.
pub open spec fn bit_bytes_spec(s: Seq<bool>) -> Seq<u8> {
    Seq::new(
        s.len(),
        |i: int|
            if s[i] {
                1u8
            } else {
                0u8
            },
    )
}

/// The transcript encoding of a bitmask.
pub open spec fn bitmask_bytes_spec(s: Seq<bool>) -> Seq<u8> {
    len_prefix_spec(s) + bit_bytes_spec(s)
}

proof fn lemma_bit_bytes_take_step(s: Seq<bool>, i: int)
    requires
        0 <= i < s.len(),
    ensures
        bit_bytes_spec(s.take(i + 1)) =~= bit_bytes_spec(s.take(i)).push(
            if s[i] {
                1u8
            } else {
                0u8
            },
        ),
{
}

proof fn lemma_count_ones_take_step(s: Seq<bool>, i: int)
    requires
        0 <= i < s.len(),
    ensures
        count_ones_spec(s.take(i + 1)) == count_ones_spec(s.take(i)) + (if s[i] {
            1nat
        } else {
            0nat
        }),
{
    lemma_count_ones_append_one(s.take(i + 1));
    assert(s.take(i + 1).drop_last() =~= s.take(i));
}

/// Appending one bit adds its weight to the count.
proof fn lemma_count_ones_append_one(s: Seq<bool>)
    requires
        s.len() > 0,
    ensures
        count_ones_spec(s) == count_ones_spec(s.drop_last()) + (if s.last() {
            1nat
        } else {
            0nat
        }),
    decreases s.len(),
{
    if s.len() == 1 {
        assert(s.drop_first() =~= Seq::<bool>::empty());
        assert(s.drop_last() =~= Seq::<bool>::empty());
    } else {
        lemma_count_ones_append_one(s.drop_first());
        assert(s.drop_first().drop_last() =~= s.drop_last().drop_first());
        assert(s.drop_first().last() == s.last());
        assert(s.drop_last()[0] == s[0]);
    }
}

/// The field value of the bits as a binary number, computed low bit first.
pub fn bits_to_field(bits: &Bitmask, lo: usize, hi: usize) -> (r: Fe)
    requires
        lo <= hi <= bits@.len(),
    ensures
        r.wf(),
        r.val() == bits_field_val(bits@.subrange(lo as int, hi as int)),
{
    let mut acc: Fe = fe_zero();
    let mut i: usize = hi;
    proof {
        assert(bits@.subrange(hi as int, hi as int) =~= Seq::<bool>::empty());
    }
    while i > lo
        invariant
            lo <= i <= hi <= bits@.len(),
            acc.wf(),
            acc.val() == bits_field_val(bits@.subrange(i as int, hi as int)),
        decreases i,
    {
        i -= 1;
        let doubled = fr_add(&acc, &acc);
        if bits.at(i) {
            let one = crate::fe::fe_one();
            acc = fr_add(&doubled, &one);
        } else {
            acc = doubled;
        }
        proof {
            let sub = bits@.subrange(i as int, hi as int);
            assert(sub.drop_first() =~= bits@.subrange(i + 1, hi as int));
            lemma_double_step(
                bits_field_val(bits@.subrange(i + 1, hi as int)),
                bits@[i as int],
            );
        }
    }
    acc
}

/// One step of the low-bit-first evaluation: doubling then adding the bit
/// matches the recursive definition.
proof fn lemma_double_step(rest: nat, b: bool)
    requires
        rest < fr_order(),
    ensures
        fadd(
            fadd(rest, rest),
            if b {
                1nat
            } else {
                0nat
            },
        ) == ((if b {
            1nat
        } else {
            0nat
        }) + 2 * rest) % fr_order(),
{
    let p = fr_order() as int;
    let bv: int = if b {
        1
    } else {
        0
    };
    vstd::arithmetic::div_mod::lemma_add_mod_noop(2 * (rest as int), bv, p);
    vstd::arithmetic::div_mod::lemma_small_mod(bv as nat, fr_order());
    assert(rest + rest == 2 * rest);
}

/// One set bit at the last row of each 256-bit chunk. Opaque: callers
/// reason about the indicator as a value; only its builder looks inside.
#[verifier::opaque]
pub open spec fn chunk_boundary_bits_spec(n: nat) -> Seq<bool> {
    Seq::new(n, |j: int| j % 256 == 255)
}

/// The indicator of the chunk-boundary rows, as a bitmask over the domain.
pub fn chunk_boundary_bits(n: usize) -> (r: Bitmask)
    ensures
        r@ == chunk_boundary_bits_spec(n as nat),
        r@.len() == n,
{
    let mut v: Vec<bool> = Vec::new();
    let mut j: usize = 0;
    while j < n
        invariant
            j <= n,
            v@.len() == j,
            forall|i: int| 0 <= i < j ==> v@[i] == (i % 256 == 255),
        decreases n - j,
    {
        v.push(j % 256 == 255);
        j += 1;
    }
    proof {
        reveal(chunk_boundary_bits_spec);
        assert(v@ =~= chunk_boundary_bits_spec(n as nat));
    }
    Bitmask::from_bits(v.as_slice())
}

} // verus!

verus! {

/// The bitmask split into chunks of at most 256 bits, each read as a field
/// value, low chunk first.
pub open spec fn chunk_vals_spec(s: Seq<bool>) -> Seq<nat>
    decreases s.len(),
{
    if s.len() == 0 {
        Seq::empty()
    } else if s.len() <= 256 {
        seq![bits_field_val(s)]
    } else {
        seq![bits_field_val(s.take(256))] + chunk_vals_spec(s.skip(256))
    }
}

/// Splits the bitmask into 256-bit chunks and reads each as a field value.
pub fn bitmask_chunks(bits: &Bitmask) -> (r: Vec<Fe>)
    ensures
        forall|i: int| 0 <= i < r@.len() ==> (#[trigger] r@[i]).wf(),
        crate::utils::vals_of(r@) == chunk_vals_spec(bits@),
{
    let n = bits.size();
    let mut out: Vec<Fe> = Vec::new();
    let mut lo: usize = 0;
    proof {
        assert(bits@.skip(0) =~= bits@);
        assert(crate::utils::vals_of(out@) =~= Seq::<nat>::empty());
    }
    while lo < n
        invariant
            lo <= n,
            n == bits@.len(),
            forall|i: int| 0 <= i < out@.len() ==> (#[trigger] out@[i]).wf(),
            chunk_vals_spec(bits@) =~= crate::utils::vals_of(out@) + chunk_vals_spec(
                bits@.skip(lo as int),
            ),
        decreases n - lo,
    {
        let hi = if n - lo > 256 {
            lo + 256
        } else {
            n
        };
        let c = bits_to_field(bits, lo, hi);
        let ghost prev = out@;
        out.push(c);
        proof {
            let rest = bits@.skip(lo as int);
            assert(crate::utils::vals_of(out@) =~= crate::utils::vals_of(prev) + seq![c.val()]);
            if rest.len() <= 256 {
                assert(bits@.subrange(lo as int, hi as int) =~= rest);
            } else {
                assert(bits@.subrange(lo as int, hi as int) =~= rest.take(256));
                assert(bits@.skip(hi as int) =~= rest.skip(256));
            }
            assert(chunk_vals_spec(bits@) =~= crate::utils::vals_of(out@) + chunk_vals_spec(
                bits@.skip(hi as int),
            ));
        }
        lo = hi;
    }
    proof {
        assert(bits@.skip(n as int) =~= Seq::<bool>::empty());
        assert(crate::utils::vals_of(out@) =~= chunk_vals_spec(bits@));
    }
    out
}

} // verus!
