//! The transcript's domain-separation labels, as fixed byte strings.
//!
//! Prover and verifier must absorb bit-for-bit identical labels, so each
//! label is written out once here, with its spec-level value beside it.

use vstd::prelude::*;

verus! {

#[verifier::opaque]
/// The bytes of the label `domain`.
pub open spec fn lbl_domain() -> Seq<u8> {
    seq![100u8, 111u8, 109u8, 97u8, 105u8, 110u8]
}

pub fn lbl_domain_vec() -> (r: Vec<u8>)
    ensures
        r@ == lbl_domain(),
{
    proof {
        reveal(lbl_domain);
    }
    let mut v: Vec<u8> = Vec::new();
    v.push(100u8);
    v.push(111u8);
    v.push(109u8);
    v.push(97u8);
    v.push(105u8);
    v.push(110u8);
    proof {
        assert(v@ =~= lbl_domain());
    }
    v
}

#[verifier::opaque]
/// The bytes of the label `vk`.
pub open spec fn lbl_vk() -> Seq<u8> {
    seq![118u8, 107u8]
}

pub fn lbl_vk_vec() -> (r: Vec<u8>)
    ensures
        r@ == lbl_vk(),
{
    proof {
        reveal(lbl_vk);
    }
    let mut v: Vec<u8> = Vec::new();
    v.push(118u8);
    v.push(107u8);
    proof {
        assert(v@ =~= lbl_vk());
    }
    v
}

#[verifier::opaque]
/// The bytes of the label `keyset_commitment`.
pub open spec fn lbl_keyset_commitment() -> Seq<u8> {
    seq![107u8, 101u8, 121u8, 115u8, 101u8, 116u8, 95u8, 99u8, 111u8, 109u8, 109u8, 105u8, 116u8, 109u8, 101u8, 110u8, 116u8]
}

pub fn lbl_keyset_commitment_vec() -> (r: Vec<u8>)
    ensures
        r@ == lbl_keyset_commitment(),
{
    proof {
        reveal(lbl_keyset_commitment);
    }
    let mut v: Vec<u8> = Vec::new();
    v.push(107u8);
    v.push(101u8);
    v.push(121u8);
    v.push(115u8);
    v.push(101u8);
    v.push(116u8);
    v.push(95u8);
    v.push(99u8);
    v.push(111u8);
    v.push(109u8);
    v.push(109u8);
    v.push(105u8);
    v.push(116u8);
    v.push(109u8);
    v.push(101u8);
    v.push(110u8);
    v.push(116u8);
    proof {
        assert(v@ =~= lbl_keyset_commitment());
    }
    v
}

#[verifier::opaque]
/// The bytes of the label `public_input`.
pub open spec fn lbl_public_input() -> Seq<u8> {
    seq![112u8, 117u8, 98u8, 108u8, 105u8, 99u8, 95u8, 105u8, 110u8, 112u8, 117u8, 116u8]
}

pub fn lbl_public_input_vec() -> (r: Vec<u8>)
    ensures
        r@ == lbl_public_input(),
{
    proof {
        reveal(lbl_public_input);
    }
    let mut v: Vec<u8> = Vec::new();
    v.push(112u8);
    v.push(117u8);
    v.push(98u8);
    v.push(108u8);
    v.push(105u8);
    v.push(99u8);
    v.push(95u8);
    v.push(105u8);
    v.push(110u8);
    v.push(112u8);
    v.push(117u8);
    v.push(116u8);
    proof {
        assert(v@ =~= lbl_public_input());
    }
    v
}

#[verifier::opaque]
/// The bytes of the label `register_commitments`.
pub open spec fn lbl_register_commitments() -> Seq<u8> {
    seq![114u8, 101u8, 103u8, 105u8, 115u8, 116u8, 101u8, 114u8, 95u8, 99u8, 111u8, 109u8, 109u8, 105u8, 116u8, 109u8, 101u8, 110u8, 116u8, 115u8]
}

pub fn lbl_register_commitments_vec() -> (r: Vec<u8>)
    ensures
        r@ == lbl_register_commitments(),
{
    proof {
        reveal(lbl_register_commitments);
    }
    let mut v: Vec<u8> = Vec::new();
    v.push(114u8);
    v.push(101u8);
    v.push(103u8);
    v.push(105u8);
    v.push(115u8);
    v.push(116u8);
    v.push(101u8);
    v.push(114u8);
    v.push(95u8);
    v.push(99u8);
    v.push(111u8);
    v.push(109u8);
    v.push(109u8);
    v.push(105u8);
    v.push(116u8);
    v.push(109u8);
    v.push(101u8);
    v.push(110u8);
    v.push(116u8);
    v.push(115u8);
    proof {
        assert(v@ =~= lbl_register_commitments());
    }
    v
}

#[verifier::opaque]
/// The bytes of the label `bitmask_aggregation`.
pub open spec fn lbl_bitmask_aggregation() -> Seq<u8> {
    seq![98u8, 105u8, 116u8, 109u8, 97u8, 115u8, 107u8, 95u8, 97u8, 103u8, 103u8, 114u8, 101u8, 103u8, 97u8, 116u8, 105u8, 111u8, 110u8]
}

pub fn lbl_bitmask_aggregation_vec() -> (r: Vec<u8>)
    ensures
        r@ == lbl_bitmask_aggregation(),
{
    proof {
        reveal(lbl_bitmask_aggregation);
    }
    let mut v: Vec<u8> = Vec::new();
    v.push(98u8);
    v.push(105u8);
    v.push(116u8);
    v.push(109u8);
    v.push(97u8);
    v.push(115u8);
    v.push(107u8);
    v.push(95u8);
    v.push(97u8);
    v.push(103u8);
    v.push(103u8);
    v.push(114u8);
    v.push(101u8);
    v.push(103u8);
    v.push(97u8);
    v.push(116u8);
    v.push(105u8);
    v.push(111u8);
    v.push(110u8);
    proof {
        assert(v@ =~= lbl_bitmask_aggregation());
    }
    v
}

#[verifier::opaque]
/// The bytes of the label `2nd_round_register_commitments`.
pub open spec fn lbl_second_round_register_commitments() -> Seq<u8> {
    seq![50u8, 110u8, 100u8, 95u8, 114u8, 111u8, 117u8, 110u8, 100u8, 95u8, 114u8, 101u8, 103u8, 105u8, 115u8, 116u8, 101u8, 114u8, 95u8, 99u8, 111u8, 109u8, 109u8, 105u8, 116u8, 109u8, 101u8, 110u8, 116u8, 115u8]
}

pub fn lbl_second_round_register_commitments_vec() -> (r: Vec<u8>)
    ensures
        r@ == lbl_second_round_register_commitments(),
{
    proof {
        reveal(lbl_second_round_register_commitments);
    }
    let mut v: Vec<u8> = Vec::new();
    v.push(50u8);
    v.push(110u8);
    v.push(100u8);
    v.push(95u8);
    v.push(114u8);
    v.push(111u8);
    v.push(117u8);
    v.push(110u8);
    v.push(100u8);
    v.push(95u8);
    v.push(114u8);
    v.push(101u8);
    v.push(103u8);
    v.push(105u8);
    v.push(115u8);
    v.push(116u8);
    v.push(101u8);
    v.push(114u8);
    v.push(95u8);
    v.push(99u8);
    v.push(111u8);
    v.push(109u8);
    v.push(109u8);
    v.push(105u8);
    v.push(116u8);
    v.push(109u8);
    v.push(101u8);
    v.push(110u8);
    v.push(116u8);
    v.push(115u8);
    proof {
        assert(v@ =~= lbl_second_round_register_commitments());
    }
    v
}

#[verifier::opaque]
/// The bytes of the label `constraints_aggregation`.
pub open spec fn lbl_constraints_aggregation() -> Seq<u8> {
    seq![99u8, 111u8, 110u8, 115u8, 116u8, 114u8, 97u8, 105u8, 110u8, 116u8, 115u8, 95u8, 97u8, 103u8, 103u8, 114u8, 101u8, 103u8, 97u8, 116u8, 105u8, 111u8, 110u8]
}

pub fn lbl_constraints_aggregation_vec() -> (r: Vec<u8>)
    ensures
        r@ == lbl_constraints_aggregation(),
{
    proof {
        reveal(lbl_constraints_aggregation);
    }
    let mut v: Vec<u8> = Vec::new();
    v.push(99u8);
    v.push(111u8);
    v.push(110u8);
    v.push(115u8);
    v.push(116u8);
    v.push(114u8);
    v.push(97u8);
    v.push(105u8);
    v.push(110u8);
    v.push(116u8);
    v.push(115u8);
    v.push(95u8);
    v.push(97u8);
    v.push(103u8);
    v.push(103u8);
    v.push(114u8);
    v.push(101u8);
    v.push(103u8);
    v.push(97u8);
    v.push(116u8);
    v.push(105u8);
    v.push(111u8);
    v.push(110u8);
    proof {
        assert(v@ =~= lbl_constraints_aggregation());
    }
    v
}

#[verifier::opaque]
/// The bytes of the label `quotient`.
pub open spec fn lbl_quotient() -> Seq<u8> {
    seq![113u8, 117u8, 111u8, 116u8, 105u8, 101u8, 110u8, 116u8]
}

pub fn lbl_quotient_vec() -> (r: Vec<u8>)
    ensures
        r@ == lbl_quotient(),
{
    proof {
        reveal(lbl_quotient);
    }
    let mut v: Vec<u8> = Vec::new();
    v.push(113u8);
    v.push(117u8);
    v.push(111u8);
    v.push(116u8);
    v.push(105u8);
    v.push(101u8);
    v.push(110u8);
    v.push(116u8);
    proof {
        assert(v@ =~= lbl_quotient());
    }
    v
}

#[verifier::opaque]
/// The bytes of the label `evaluation_point`.
pub open spec fn lbl_evaluation_point() -> Seq<u8> {
    seq![101u8, 118u8, 97u8, 108u8, 117u8, 97u8, 116u8, 105u8, 111u8, 110u8, 95u8, 112u8, 111u8, 105u8, 110u8, 116u8]
}

pub fn lbl_evaluation_point_vec() -> (r: Vec<u8>)
    ensures
        r@ == lbl_evaluation_point(),
{
    proof {
        reveal(lbl_evaluation_point);
    }
    let mut v: Vec<u8> = Vec::new();
    v.push(101u8);
    v.push(118u8);
    v.push(97u8);
    v.push(108u8);
    v.push(117u8);
    v.push(97u8);
    v.push(116u8);
    v.push(105u8);
    v.push(111u8);
    v.push(110u8);
    v.push(95u8);
    v.push(112u8);
    v.push(111u8);
    v.push(105u8);
    v.push(110u8);
    v.push(116u8);
    proof {
        assert(v@ =~= lbl_evaluation_point());
    }
    v
}

#[verifier::opaque]
/// The bytes of the label `register_evaluations`.
pub open spec fn lbl_register_evaluations() -> Seq<u8> {
    seq![114u8, 101u8, 103u8, 105u8, 115u8, 116u8, 101u8, 114u8, 95u8, 101u8, 118u8, 97u8, 108u8, 117u8, 97u8, 116u8, 105u8, 111u8, 110u8, 115u8]
}

pub fn lbl_register_evaluations_vec() -> (r: Vec<u8>)
    ensures
        r@ == lbl_register_evaluations(),
{
    proof {
        reveal(lbl_register_evaluations);
    }
    let mut v: Vec<u8> = Vec::new();
    v.push(114u8);
    v.push(101u8);
    v.push(103u8);
    v.push(105u8);
    v.push(115u8);
    v.push(116u8);
    v.push(101u8);
    v.push(114u8);
    v.push(95u8);
    v.push(101u8);
    v.push(118u8);
    v.push(97u8);
    v.push(108u8);
    v.push(117u8);
    v.push(97u8);
    v.push(116u8);
    v.push(105u8);
    v.push(111u8);
    v.push(110u8);
    v.push(115u8);
    proof {
        assert(v@ =~= lbl_register_evaluations());
    }
    v
}

#[verifier::opaque]
/// The bytes of the label `quotient_evaluation`.
pub open spec fn lbl_quotient_evaluation() -> Seq<u8> {
    seq![113u8, 117u8, 111u8, 116u8, 105u8, 101u8, 110u8, 116u8, 95u8, 101u8, 118u8, 97u8, 108u8, 117u8, 97u8, 116u8, 105u8, 111u8, 110u8]
}

pub fn lbl_quotient_evaluation_vec() -> (r: Vec<u8>)
    ensures
        r@ == lbl_quotient_evaluation(),
{
    proof {
        reveal(lbl_quotient_evaluation);
    }
    let mut v: Vec<u8> = Vec::new();
    v.push(113u8);
    v.push(117u8);
    v.push(111u8);
    v.push(116u8);
    v.push(105u8);
    v.push(101u8);
    v.push(110u8);
    v.push(116u8);
    v.push(95u8);
    v.push(101u8);
    v.push(118u8);
    v.push(97u8);
    v.push(108u8);
    v.push(117u8);
    v.push(97u8);
    v.push(116u8);
    v.push(105u8);
    v.push(111u8);
    v.push(110u8);
    proof {
        assert(v@ =~= lbl_quotient_evaluation());
    }
    v
}

#[verifier::opaque]
/// The bytes of the label `shifted_linearization_evaluation`.
pub open spec fn lbl_shifted_linearization_evaluation() -> Seq<u8> {
    seq![115u8, 104u8, 105u8, 102u8, 116u8, 101u8, 100u8, 95u8, 108u8, 105u8, 110u8, 101u8, 97u8, 114u8, 105u8, 122u8, 97u8, 116u8, 105u8, 111u8, 110u8, 95u8, 101u8, 118u8, 97u8, 108u8, 117u8, 97u8, 116u8, 105u8, 111u8, 110u8]
}

pub fn lbl_shifted_linearization_evaluation_vec() -> (r: Vec<u8>)
    ensures
        r@ == lbl_shifted_linearization_evaluation(),
{
    proof {
        reveal(lbl_shifted_linearization_evaluation);
    }
    let mut v: Vec<u8> = Vec::new();
    v.push(115u8);
    v.push(104u8);
    v.push(105u8);
    v.push(102u8);
    v.push(116u8);
    v.push(101u8);
    v.push(100u8);
    v.push(95u8);
    v.push(108u8);
    v.push(105u8);
    v.push(110u8);
    v.push(101u8);
    v.push(97u8);
    v.push(114u8);
    v.push(105u8);
    v.push(122u8);
    v.push(97u8);
    v.push(116u8);
    v.push(105u8);
    v.push(111u8);
    v.push(110u8);
    v.push(95u8);
    v.push(101u8);
    v.push(118u8);
    v.push(97u8);
    v.push(108u8);
    v.push(117u8);
    v.push(97u8);
    v.push(116u8);
    v.push(105u8);
    v.push(111u8);
    v.push(110u8);
    proof {
        assert(v@ =~= lbl_shifted_linearization_evaluation());
    }
    v
}

#[verifier::opaque]
/// The bytes of the label `kzg_aggregation`.
pub open spec fn lbl_kzg_aggregation() -> Seq<u8> {
    seq![107u8, 122u8, 103u8, 95u8, 97u8, 103u8, 103u8, 114u8, 101u8, 103u8, 97u8, 116u8, 105u8, 111u8, 110u8]
}

pub fn lbl_kzg_aggregation_vec() -> (r: Vec<u8>)
    ensures
        r@ == lbl_kzg_aggregation(),
{
    proof {
        reveal(lbl_kzg_aggregation);
    }
    let mut v: Vec<u8> = Vec::new();
    v.push(107u8);
    v.push(122u8);
    v.push(103u8);
    v.push(95u8);
    v.push(97u8);
    v.push(103u8);
    v.push(103u8);
    v.push(114u8);
    v.push(101u8);
    v.push(103u8);
    v.push(97u8);
    v.push(116u8);
    v.push(105u8);
    v.push(111u8);
    v.push(110u8);
    proof {
        assert(v@ =~= lbl_kzg_aggregation());
    }
    v
}

#[verifier::opaque]
/// The bytes of the label `verifier_secret`.
pub open spec fn lbl_verifier_secret() -> Seq<u8> {
    seq![118u8, 101u8, 114u8, 105u8, 102u8, 105u8, 101u8, 114u8, 95u8, 115u8, 101u8, 99u8, 114u8, 101u8, 116u8]
}

pub fn lbl_verifier_secret_vec() -> (r: Vec<u8>)
    ensures
        r@ == lbl_verifier_secret(),
{
    proof {
        reveal(lbl_verifier_secret);
    }
    let mut v: Vec<u8> = Vec::new();
    v.push(118u8);
    v.push(101u8);
    v.push(114u8);
    v.push(105u8);
    v.push(102u8);
    v.push(105u8);
    v.push(101u8);
    v.push(114u8);
    v.push(95u8);
    v.push(115u8);
    v.push(101u8);
    v.push(99u8);
    v.push(114u8);
    v.push(101u8);
    v.push(116u8);
    proof {
        assert(v@ =~= lbl_verifier_secret());
    }
    v
}

#[verifier::opaque]
/// The bytes of the label `apk_proof`.
pub open spec fn lbl_apk_proof() -> Seq<u8> {
    seq![97u8, 112u8, 107u8, 95u8, 112u8, 114u8, 111u8, 111u8, 102u8]
}

pub fn lbl_apk_proof_vec() -> (r: Vec<u8>)
    ensures
        r@ == lbl_apk_proof(),
{
    proof {
        reveal(lbl_apk_proof);
    }
    let mut v: Vec<u8> = Vec::new();
    v.push(97u8);
    v.push(112u8);
    v.push(107u8);
    v.push(95u8);
    v.push(112u8);
    v.push(114u8);
    v.push(111u8);
    v.push(111u8);
    v.push(102u8);
    proof {
        assert(v@ =~= lbl_apk_proof());
    }
    v
}

} // verus!
