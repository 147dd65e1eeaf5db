//! The membership relation: the arithmetic constraint set a proving
//! backend consumes. It replays the accumulator's hashing step by step
//! inside the constraint system — leaf derivation from the secret, the
//! conditional left/right selection at each path level, root equality,
//! and the nullifier derivation and binding — so that the in-constraint
//! computation provably agrees with the native one.

use vstd::prelude::*;
use ark_relations::r1cs::{ConstraintSystemRef, SynthesisError};
use ark_r1cs_std::fields::fp::FpVar;
use ark_r1cs_std::boolean::Boolean;
use ark_r1cs_std::alloc::AllocVar;
use ark_r1cs_std::select::CondSelectGadget;
use ark_r1cs_std::eq::EqGadget;
use ark_crypto_primitives::sponge::poseidon::constraints::PoseidonSpongeVar;
use ark_crypto_primitives::sponge::constraints::CryptographicSpongeVar;
use crate::field::{Felt, felt_eq};
use crate::poseidon::{HashParams, params_wf, poseidon_hash, hash_single, hash_pair};
use crate::witness::{root_from_path, relation_holds, compute_root_from_path, lemma_root_from_path_push};

verus! {

#[verifier::external_type_specification]
#[verifier::external_body]
pub struct ExSynthesisError(SynthesisError);

/// A handle to the external constraint system that records the variables
/// and constraints, held opaquely.
#[verifier::external_body]
pub struct CsRef(pub ConstraintSystemRef<ark_bn254::Fr>);

/// A field element allocated in the constraint system.
#[verifier::external_body]
pub struct FieldVar(pub FpVar<ark_bn254::Fr>);

/// A boolean allocated in the constraint system.
#[verifier::external_body]
pub struct BoolVar(pub Boolean<ark_bn254::Fr>);

/// The field value a constraint-system variable stands for: its witness
/// assignment. The allocation and gadget wrappers below state their
/// results through this name, which is how the in-constraint hash chain
/// is proved to compute the same values as the native one.
pub uninterp spec fn var_value(v: FieldVar) -> Felt;

/// The boolean value a constraint-system boolean stands for.
pub uninterp spec fn bool_var_value(b: BoolVar) -> bool;

/// Why constraint generation failed.
pub enum RelationError {
    /// The two witness sequences differ in length: the witness is
    /// malformed and no constraints are generated from it.
    MalformedWitness,
    /// The constraint-system substrate signalled a resource failure;
    /// propagated unchanged.
    Substrate(SynthesisError),
}

/// Relies on `FpVar::new_input`: on success the allocated public-input
/// variable is assigned exactly the supplied value.
#[verifier::external_body]
fn alloc_public_input(cs: &CsRef, v: &Felt) -> (r: Result<FieldVar, SynthesisError>)
    ensures
        r matches Ok(fv) ==> var_value(fv) == *v,
{
    Ok(FieldVar(FpVar::new_input(cs.0.clone(), || Ok(v.0))?))
}

/// Relies on `FpVar::new_witness`: on success the allocated private
/// witness variable is assigned exactly the supplied value.
#[verifier::external_body]
fn alloc_witness(cs: &CsRef, v: &Felt) -> (r: Result<FieldVar, SynthesisError>)
    ensures
        r matches Ok(fv) ==> var_value(fv) == *v,
{
    Ok(FieldVar(FpVar::new_witness(cs.0.clone(), || Ok(v.0))?))
}

/// Relies on `Boolean::new_witness`: on success the allocated boolean
/// witness is assigned exactly the supplied value.
#[verifier::external_body]
fn alloc_witness_bool(cs: &CsRef, b: bool) -> (r: Result<BoolVar, SynthesisError>)
    ensures
        r matches Ok(bv) ==> bool_var_value(bv) == b,
{
    Ok(BoolVar(Boolean::new_witness(cs.0.clone(), || Ok(b))?))
}

/// Relies on `FpVar::conditionally_select`: on success the result is
/// assigned the first value when the condition holds and the second
/// otherwise, with the selection expressed as a constraint rather than a
/// native branch so the circuit's shape does not leak the condition.
#[verifier::external_body]
fn select(cond: &BoolVar, when_true: &FieldVar, when_false: &FieldVar) -> (r: Result<
    FieldVar,
    SynthesisError,
>)
    ensures
        r matches Ok(fv) ==> var_value(fv) == if bool_var_value(*cond) {
            var_value(*when_true)
        } else {
            var_value(*when_false)
        },
{
    Ok(FieldVar(FpVar::conditionally_select(&cond.0, &when_true.0, &when_false.0)?))
}

/// Relies on `PoseidonSpongeVar`: the in-constraint sponge absorbs the
/// single input and squeezes the same field element the native sponge
/// computes from the same parameters and input.
#[verifier::external_body]
fn hash_single_var(cs: &CsRef, cfg: &HashParams, input: &FieldVar) -> (r: Result<
    FieldVar,
    SynthesisError,
>)
    requires
        params_wf(*cfg),
    ensures
        r matches Ok(fv) ==> var_value(fv) == poseidon_hash(*cfg, seq![var_value(*input)]),
{
    let mut sponge = PoseidonSpongeVar::new(cs.0.clone(), &cfg.0);
    sponge.absorb(&vec![input.0.clone()])?;
    Ok(FieldVar(sponge.squeeze_field_elements(1)?[0].clone()))
}

/// Relies on `PoseidonSpongeVar`: the in-constraint sponge absorbs the
/// ordered pair and squeezes the same field element the native sponge
/// computes from the same parameters and inputs.
#[verifier::external_body]
fn hash_pair_var(cs: &CsRef, cfg: &HashParams, left: &FieldVar, right: &FieldVar) -> (r: Result<
    FieldVar,
    SynthesisError,
>)
    requires
        params_wf(*cfg),
    ensures
        r matches Ok(fv) ==> var_value(fv) == poseidon_hash(
            *cfg,
            seq![var_value(*left), var_value(*right)],
        ),
{
    let mut sponge = PoseidonSpongeVar::new(cs.0.clone(), &cfg.0);
    sponge.absorb(&vec![left.0.clone(), right.0.clone()])?;
    Ok(FieldVar(sponge.squeeze_field_elements(1)?[0].clone()))
}

/// Relies on `FpVar::enforce_equal`: records the equality constraint
/// between the two variables in the constraint system.
#[verifier::external_body]
fn enforce_equal(a: &FieldVar, b: &FieldVar) -> (r: Result<(), SynthesisError>) {
    a.0.enforce_equal(&b.0)
}

/// The membership relation instance: public values, private witness and
/// the hash parameters, consumed once by constraint generation.
pub struct MembershipCircuit {
    pub root: Felt,
    pub nullifier_hash: Felt,
    pub external_nullifier: Felt,
    pub secret: Felt,
    pub path_elements: Vec<Felt>,
    pub path_indices: Vec<bool>,
    pub poseidon_config: HashParams,
}

impl MembershipCircuit {
    /// The mathematical statement this instance's constraint set encodes:
    /// satisfiable exactly when this predicate holds of the instance.
    pub open spec fn satisfied(self) -> bool {
        relation_holds(
            self.poseidon_config,
            self.root,
            self.nullifier_hash,
            self.external_nullifier,
            self.secret,
            self.path_elements@,
            self.path_indices@,
        )
    }

    /// Decides the relation natively: derives the leaf from the secret,
    /// folds it up through the witness and compares root and nullifier.
    /// Returns exactly whether the relation holds of this instance.
    pub fn check_witness(&self) -> (b: bool)
        requires
            params_wf(self.poseidon_config),
        ensures
            b == self.satisfied(),
    {
        if self.path_elements.len() != self.path_indices.len() {
            return false;
        }
        let leaf = hash_single(&self.poseidon_config, &self.secret);
        let folded = compute_root_from_path(
            &self.poseidon_config,
            &leaf,
            &self.path_elements,
            &self.path_indices,
        );
        let root_ok = match folded {
            Some(v) => felt_eq(&v, &self.root),
            None => false,
        };
        let nullifier = hash_pair(&self.poseidon_config, &self.secret, &self.external_nullifier);
        let nullifier_ok = felt_eq(&nullifier, &self.nullifier_hash);
        root_ok && nullifier_ok
    }

    /// Generates the relation's constraints against the supplied handle: a
    /// malformed witness (sequences of unequal length) is rejected up
    /// front with its own error and no other input is; any other failure
    /// is a resource failure of the substrate, propagated unchanged.
    pub fn generate_constraints(self, cs: &CsRef) -> (r: Result<(), RelationError>)
        requires
            params_wf(self.poseidon_config),
        ensures
            self.path_elements@.len() != self.path_indices@.len() ==> r matches Err(
                RelationError::MalformedWitness,
            ),
            self.path_elements@.len() == self.path_indices@.len() ==> (r matches Ok(_) || r matches Err(
                RelationError::Substrate(_),
            )),
    {
        if self.path_elements.len() != self.path_indices.len() {
            return Err(RelationError::MalformedWitness);
        }
        let root_var = match alloc_public_input(cs, &self.root) {
            Ok(v) => v,
            Err(e) => { return Err(RelationError::Substrate(e)); },
        };
        let nullifier_hash_var = match alloc_public_input(cs, &self.nullifier_hash) {
            Ok(v) => v,
            Err(e) => { return Err(RelationError::Substrate(e)); },
        };
        let external_nullifier_var = match alloc_public_input(cs, &self.external_nullifier) {
            Ok(v) => v,
            Err(e) => { return Err(RelationError::Substrate(e)); },
        };
        let secret_var = match alloc_witness(cs, &self.secret) {
            Ok(v) => v,
            Err(e) => { return Err(RelationError::Substrate(e)); },
        };
        let leaf_var = match hash_single_var(cs, &self.poseidon_config, &secret_var) {
            Ok(v) => v,
            Err(e) => { return Err(RelationError::Substrate(e)); },
        };
        let current = match fold_path_vars(
            cs,
            &self.poseidon_config,
            leaf_var,
            &self.path_elements,
            &self.path_indices,
        ) {
            Ok(v) => v,
            Err(e) => { return Err(RelationError::Substrate(e)); },
        };
        match enforce_equal(&current, &root_var) {
            Ok(u) => u,
            Err(e) => { return Err(RelationError::Substrate(e)); },
        };
        let nullifier_var = match hash_pair_var(
            cs,
            &self.poseidon_config,
            &secret_var,
            &external_nullifier_var,
        ) {
            Ok(v) => v,
            Err(e) => { return Err(RelationError::Substrate(e)); },
        };
        match enforce_equal(&nullifier_var, &nullifier_hash_var) {
            Ok(u) => Ok(u),
            Err(e) => Err(RelationError::Substrate(e)),
        }
    }
}

/// Builds the in-constraint hash chain from the leaf variable up through
/// the witness: at each level the sibling and direction are allocated as
/// private witnesses, the ordered pair is picked by constraint-level
/// selection, and the pair is hashed in-constraint. On success the final
/// variable is assigned exactly the root that the native fold computes
/// from the same leaf value and witness — the two execution contexts of
/// the hash agree value for value.
fn fold_path_vars(
    cs: &CsRef,
    cfg: &HashParams,
    leaf: FieldVar,
    path_elements: &Vec<Felt>,
    path_indices: &Vec<bool>,
) -> (r: Result<FieldVar, SynthesisError>)
    requires
        params_wf(*cfg),
        path_elements@.len() == path_indices@.len(),
    ensures
        r matches Ok(v) ==> var_value(v) == root_from_path(
            *cfg,
            var_value(leaf),
            path_elements@,
            path_indices@,
        ),
{
    let ghost leaf_value = var_value(leaf);
    let mut current = leaf;
    let mut i: usize = 0;
    while i < path_elements.len()
        invariant
            params_wf(*cfg),
            i <= path_elements@.len(),
            path_elements@.len() == path_indices@.len(),
            var_value(current) == root_from_path(
                *cfg,
                leaf_value,
                path_elements@.take(i as int),
                path_indices@.take(i as int),
            ),
        decreases path_elements@.len() - i,
    {
        let sibling = match alloc_witness(cs, &path_elements[i]) {
            Ok(v) => v,
            Err(e) => { return Err(e); },
        };
        let direction = match alloc_witness_bool(cs, path_indices[i]) {
            Ok(v) => v,
            Err(e) => { return Err(e); },
        };
        let left = match select(&direction, &sibling, &current) {
            Ok(v) => v,
            Err(e) => { return Err(e); },
        };
        let right = match select(&direction, &current, &sibling) {
            Ok(v) => v,
            Err(e) => { return Err(e); },
        };
        let next = match hash_pair_var(cs, cfg, &left, &right) {
            Ok(v) => v,
            Err(e) => { return Err(e); },
        };
        proof {
            lemma_root_from_path_push(
                *cfg,
                leaf_value,
                path_elements@.take(i as int),
                path_indices@.take(i as int),
                path_elements@[i as int],
                path_indices@[i as int],
            );
            assert(path_elements@.take(i + 1) =~= path_elements@.take(i as int).push(
                path_elements@[i as int],
            ));
            assert(path_indices@.take(i + 1) =~= path_indices@.take(i as int).push(
                path_indices@[i as int],
            ));
        }
        current = next;
        i += 1;
    }
    proof {
        assert(path_elements@.take(path_elements@.len() as int) =~= path_elements@);
        assert(path_indices@.take(path_indices@.len() as int) =~= path_indices@);
    }
    Ok(current)
}

} // verus!
