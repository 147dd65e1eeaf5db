use ark_bn254::Fr;
use ark_crypto_primitives::sponge::poseidon::{PoseidonConfig, PoseidonSponge};
use ark_crypto_primitives::sponge::CryptographicSponge;
use ark_crypto_primitives::sponge::FieldBasedCryptographicSponge;
use ark_relations::r1cs::ConstraintSystem;
use zksim::field::Felt;
use zksim::poseidon::{HashParams, compute_leaf, compute_nullifier};
use zksim::merkle_tree::MerkleTree;
use zksim::circuit::{CsRef, MembershipCircuit, RelationError};

fn relation_config() -> PoseidonConfig<Fr> {
    let full_rounds = 8usize;
    let partial_rounds = 31usize;
    let width = 3usize;
    let mut c = 0u64;
    let mut ark_rows = Vec::new();
    for _ in 0..(full_rounds + partial_rounds) {
        let mut row = Vec::new();
        for _ in 0..width {
            c += 1;
            row.push(Fr::from(c));
        }
        ark_rows.push(row);
    }
    let mut mds = Vec::new();
    for _ in 0..width {
        let mut row = Vec::new();
        for _ in 0..width {
            c += 1;
            row.push(Fr::from(c * c + 3));
        }
        mds.push(row);
    }
    PoseidonConfig::new(full_rounds, partial_rounds, 5, mds, ark_rows, 2, 1)
}

fn rel_hash1(cfg: &PoseidonConfig<Fr>, x: Fr) -> Fr {
    let mut s = PoseidonSponge::new(cfg);
    s.absorb(&vec![x]);
    s.squeeze_native_field_elements(1)[0]
}

fn rel_hash2(cfg: &PoseidonConfig<Fr>, l: Fr, r: Fr) -> Fr {
    let mut s = PoseidonSponge::new(cfg);
    s.absorb(&vec![l, r]);
    s.squeeze_native_field_elements(1)[0]
}

fn good_circuit() -> MembershipCircuit {
    let cfg = relation_config();
    let secret = Fr::from(1234u64);
    let external_nullifier = Fr::from(77u64);
    let leaf = rel_hash1(&cfg, secret);
    let mut tree = MerkleTree::new(3, HashParams(relation_config()));
    tree.insert(5, Felt(leaf));
    let (path_elements, path_indices) = tree.get_proof(5);
    MembershipCircuit {
        root: Felt(tree.root.0),
        nullifier_hash: Felt(rel_hash2(&cfg, secret, external_nullifier)),
        external_nullifier: Felt(external_nullifier),
        secret: Felt(secret),
        path_elements,
        path_indices,
        poseidon_config: HashParams(relation_config()),
    }
}

fn is_satisfiable(circuit: MembershipCircuit) -> bool {
    let cs = ConstraintSystem::<Fr>::new_ref();
    circuit.generate_constraints(&CsRef(cs.clone())).unwrap_or_else(|_| panic!());
    cs.is_satisfied().unwrap()
}

#[test]
fn relation_satisfiable_for_valid_witness() {
    let circuit = good_circuit();
    assert!(circuit.check_witness());
    assert!(is_satisfiable(circuit));
}

#[test]
fn perturbed_sibling_unsatisfiable() {
    let mut circuit = good_circuit();
    circuit.path_elements[0] = Felt(circuit.path_elements[0].0 + Fr::from(1u64));
    assert!(!circuit.check_witness());
    assert!(!is_satisfiable(circuit));
}

#[test]
fn perturbed_direction_unsatisfiable() {
    let mut circuit = good_circuit();
    let flipped = !circuit.path_indices[0];
    circuit.path_indices[0] = flipped;
    assert!(!circuit.check_witness());
    assert!(!is_satisfiable(circuit));
}

#[test]
fn perturbed_secret_unsatisfiable() {
    let mut circuit = good_circuit();
    circuit.secret = Felt(circuit.secret.0 + Fr::from(1u64));
    assert!(!circuit.check_witness());
    assert!(!is_satisfiable(circuit));
}

#[test]
fn wrong_nullifier_binding_unsatisfiable() {
    let mut circuit = good_circuit();
    circuit.nullifier_hash = Felt(circuit.nullifier_hash.0 + Fr::from(1u64));
    assert!(!circuit.check_witness());
    assert!(!is_satisfiable(circuit));
}

#[test]
fn stale_root_unsatisfiable() {
    let mut circuit = good_circuit();
    circuit.root = Felt(circuit.root.0 + Fr::from(1u64));
    assert!(!circuit.check_witness());
    assert!(!is_satisfiable(circuit));
}

#[test]
fn malformed_witness_distinct_error() {
    let mut circuit = good_circuit();
    circuit.path_indices.pop();
    assert!(!circuit.check_witness());
    let cs = ConstraintSystem::<Fr>::new_ref();
    let result = circuit.generate_constraints(&CsRef(cs));
    assert!(matches!(result, Err(RelationError::MalformedWitness)));
}

#[test]
fn nullifier_determinism() {
    let cfg = relation_config();
    let params = HashParams(relation_config());
    let secret = Felt(Fr::from(901u64));
    let context_a = Felt(Fr::from(11u64));
    let context_b = Felt(Fr::from(12u64));
    let first = compute_nullifier(&params, &secret, &context_a);
    let second = compute_nullifier(&params, &secret, &context_a);
    assert_eq!(first.0, second.0);
    assert_eq!(first.0, rel_hash2(&cfg, Fr::from(901u64), Fr::from(11u64)));
    let other = compute_nullifier(&params, &secret, &context_b);
    assert_ne!(first.0, other.0);
}

#[test]
fn leaf_derivation_matches_native_hash() {
    let cfg = relation_config();
    let params = HashParams(relation_config());
    let leaf = compute_leaf(&params, &Felt(Fr::from(33u64)));
    assert_eq!(leaf.0, rel_hash1(&cfg, Fr::from(33u64)));
    assert_ne!(leaf.0, Fr::from(33u64));
}
