//! The fixed-parameter permutation hash shared by the accumulator and the
//! membership relation. The parameter set is consumed, never generated
//! here; a tree and every relation instance over it must be built from the
//! identical parameter value.

use vstd::prelude::*;
use ark_crypto_primitives::sponge::poseidon::PoseidonSponge;
use ark_crypto_primitives::sponge::CryptographicSponge;
use ark_crypto_primitives::sponge::FieldBasedCryptographicSponge;
use crate::field::Felt;

verus! {

/// The immutable Poseidon parameter set (round constants, mixing matrix,
/// rate, capacity, round counts), held opaquely. Unverified callers build
/// it and reach it through the public field.
#[verifier::external_body]
pub struct HashParams(pub ark_crypto_primitives::sponge::poseidon::PoseidonConfig<ark_bn254::Fr>);

/// A well-shaped parameter set: one the Poseidon sponge terminates on
/// without panicking — the rate is positive and the round-constant and
/// mixing matrices have the shape the permutation indexes into. Every
/// hashing function demands it; `validate_params` establishes it at run
/// time for a parameter set received from outside.
pub uninterp spec fn params_wf(p: HashParams) -> bool;

/// Relies on the `PoseidonConfig` shape that `PoseidonSponge` indexes
/// into: with a positive rate, `full_rounds + partial_rounds` round-key
/// rows and square matrices of width `rate + capacity`, absorbing and
/// squeezing terminate without panicking.
#[verifier::external_body]
pub fn validate_params(p: &HashParams) -> (b: bool)
    ensures
        b ==> params_wf(*p),
{
    let width = match p.0.rate.checked_add(p.0.capacity) {
        Some(w) => w,
        None => return false,
    };
    let rounds = match p.0.full_rounds.checked_add(p.0.partial_rounds) {
        Some(r) => r,
        None => return false,
    };
    p.0.rate >= 1 && p.0.ark.len() == rounds && p.0.ark.iter().all(|row| row.len() == width)
        && p.0.mds.len() == width && p.0.mds.iter().all(|row| row.len() == width)
}

/// What the Poseidon sponge squeezes after absorbing `inputs` under the
/// parameter set `cfg`: a pure function of the parameters and the ordered
/// inputs alone. Both execution contexts of the hash — the native one used
/// by the tree and the in-constraint one used by the relation — compute
/// exactly this value; their wrappers state their results through this
/// one name, which is what makes the two contexts provably agree.
pub uninterp spec fn poseidon_hash(cfg: HashParams, inputs: Seq<Felt>) -> Felt;

/// Relies on `PoseidonSponge`: on a well-shaped parameter set, absorbing
/// `[left, right]` and squeezing one native field element terminates and
/// is deterministic in the parameters and inputs.
#[verifier::external_body]
pub(crate) fn hash_pair(cfg: &HashParams, left: &Felt, right: &Felt) -> (r: Felt)
    requires
        params_wf(*cfg),
    ensures
        r == poseidon_hash(*cfg, seq![*left, *right]),
{
    let mut sponge = PoseidonSponge::new(&cfg.0);
    sponge.absorb(&vec![left.0, right.0]);
    Felt(sponge.squeeze_native_field_elements(1)[0])
}

/// Relies on `PoseidonSponge`: on a well-shaped parameter set, absorbing
/// the single element `input` and squeezing one native field element
/// terminates and is deterministic in the parameters and the input.
#[verifier::external_body]
pub(crate) fn hash_single(cfg: &HashParams, input: &Felt) -> (r: Felt)
    requires
        params_wf(*cfg),
    ensures
        r == poseidon_hash(*cfg, seq![*input]),
{
    let mut sponge = PoseidonSponge::new(&cfg.0);
    sponge.absorb(&vec![input.0]);
    Felt(sponge.squeeze_native_field_elements(1)[0])
}

/// The public nullifier tied to a secret and a context value:
/// `Hash(secret, external_nullifier)`, secret first. Its result is a pure
/// function of its inputs — two calls on equal inputs return equal
/// values — which is what lets an external tracker detect reuse.
pub fn compute_nullifier(cfg: &HashParams, secret: &Felt, external_nullifier: &Felt) -> (r: Felt)
    requires
        params_wf(*cfg),
    ensures
        r == poseidon_hash(*cfg, seq![*secret, *external_nullifier]),
{
    hash_pair(cfg, secret, external_nullifier)
}

/// The leaf committed for a secret: `Hash(secret)`, the one-input hash.
pub fn compute_leaf(cfg: &HashParams, secret: &Felt) -> (r: Felt)
    requires
        params_wf(*cfg),
    ensures
        r == poseidon_hash(*cfg, seq![*secret]),
{
    hash_single(cfg, secret)
}

} // verus!
