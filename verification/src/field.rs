//! The prime-field element type that every hash input, tree node and
//! relation value lives in. The element itself comes from `ark_ff` and is
//! held opaquely: the tree and the relation never look inside a field
//! element, they only store, hash and compare them. Unverified callers
//! reach the underlying element through the public field.

use vstd::prelude::*;

verus! {

/// One element of the prime field. Comparisons are exact equality of the
/// underlying element, never approximate.
#[verifier::external_body]
pub struct Felt(pub ark_bn254::Fr);

/// The embedding of a machine integer into the field, as `ark_ff` defines it.
pub uninterp spec fn felt_of_u64(n: u64) -> Felt;

/// Relies on `ark_ff`'s `From<u64>` for `Fp`: a pure embedding of `n`
/// into the prime field, the same on every machine.
#[verifier::external_body]
pub(crate) fn felt_from_u64(n: u64) -> (r: Felt)
    ensures
        r == felt_of_u64(n),
{
    Felt(ark_bn254::Fr::from(n))
}

/// Relies on `ark_ff::Fp` being `Copy`: a clone is the same value.
#[verifier::external_body]
pub(crate) fn felt_clone(x: &Felt) -> (r: Felt)
    ensures
        r == *x,
{
    Felt(x.0)
}

/// Relies on the derived `PartialEq` of `ark_ff::Fp`, which compares the
/// canonical reduced representation of the two elements: it returns true
/// exactly when the two values are equal.
#[verifier::external_body]
pub(crate) fn felt_eq(a: &Felt, b: &Felt) -> (r: bool)
    ensures
        r == (*a == *b),
{
    a.0 == b.0
}

} // verus!
