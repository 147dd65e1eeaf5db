use ark_bn254::Fr;
use ark_crypto_primitives::sponge::poseidon::{PoseidonConfig, PoseidonSponge};
use ark_crypto_primitives::sponge::CryptographicSponge;
use ark_crypto_primitives::sponge::FieldBasedCryptographicSponge;
use zksim::field::Felt;
use zksim::poseidon::{HashParams, validate_params};
use zksim::merkle_tree::MerkleTree;
use zksim::witness::compute_root_from_path;

fn tree_config() -> PoseidonConfig<Fr> {
    let full_rounds = 8usize;
    let partial_rounds = 31usize;
    let width = 3usize;
    let mut c = 0u64;
    let mut ark_rows = Vec::new();
    for _ in 0..(full_rounds + partial_rounds) {
        let mut row = Vec::new();
        for _ in 0..width {
            c += 1;
            row.push(Fr::from(c));
        }
        ark_rows.push(row);
    }
    let mut mds = Vec::new();
    for _ in 0..width {
        let mut row = Vec::new();
        for _ in 0..width {
            c += 1;
            row.push(Fr::from(c * c + 3));
        }
        mds.push(row);
    }
    PoseidonConfig::new(full_rounds, partial_rounds, 5, mds, ark_rows, 2, 1)
}

fn native_hash2(cfg: &PoseidonConfig<Fr>, l: Fr, r: Fr) -> Fr {
    let mut s = PoseidonSponge::new(cfg);
    s.absorb(&vec![l, r]);
    s.squeeze_native_field_elements(1)[0]
}

#[test]
fn default_nodes_chain() {
    let cfg = tree_config();
    let tree = MerkleTree::new(4, HashParams(tree_config()));
    assert_eq!(tree.default_nodes[0].0, Fr::from(0u64));
    for i in 1..=4usize {
        let prev = tree.default_nodes[i - 1].0;
        assert_eq!(tree.default_nodes[i].0, native_hash2(&cfg, prev, prev));
    }
}

#[test]
fn empty_tree_root() {
    let tree = MerkleTree::new(5, HashParams(tree_config()));
    assert_eq!(tree.root.0, tree.default_nodes[5].0);
    assert!(tree.leaves.is_empty());
}

#[test]
fn concrete_scenario_depth_two() {
    let cfg = tree_config();
    let mut tree = MerkleTree::new(2, HashParams(tree_config()));
    tree.insert(1, Felt(Fr::from(5u64)));
    assert_eq!(tree.leaves.get(&1).unwrap().0, Fr::from(5u64));
    assert_eq!(tree.get_node(0, 1).0, Fr::from(5u64));
    assert_eq!(tree.get_node(0, 0).0, Fr::from(0u64));
    let zero = Fr::from(0u64);
    let n10 = native_hash2(&cfg, zero, Fr::from(5u64));
    assert_eq!(tree.get_node(1, 0).0, n10);
    let d1 = native_hash2(&cfg, zero, zero);
    let expected_root = native_hash2(&cfg, n10, d1);
    assert_eq!(tree.get_node(2, 0).0, expected_root);
    assert_eq!(tree.root.0, expected_root);
    let (siblings, directions) = tree.get_proof(1);
    assert_eq!(siblings.len(), 2);
    assert_eq!(siblings[0].0, zero);
    assert_eq!(siblings[1].0, d1);
    assert_eq!(directions, vec![true, false]);
}

#[test]
fn insertion_proof_round_trip() {
    let cfg = tree_config();
    let mut tree = MerkleTree::new(4, HashParams(tree_config()));
    let inserted: Vec<(u64, u64)> = vec![(0, 7), (1, 8), (5, 9), (11, 10), (15, 11)];
    for (idx, v) in &inserted {
        tree.insert(*idx, Felt(Fr::from(*v)));
    }
    for (idx, _) in &inserted {
        let leaf = tree.leaves.get(idx).unwrap().0;
        let (siblings, directions) = tree.get_proof(*idx);
        let params = HashParams(tree_config());
        let folded = compute_root_from_path(&params, &Felt(leaf), &siblings, &directions).unwrap();
        assert_eq!(folded.0, tree.root.0);
        let mut current = leaf;
        for (s, d) in siblings.iter().zip(directions.iter()) {
            current = if *d {
                native_hash2(&cfg, s.0, current)
            } else {
                native_hash2(&cfg, current, s.0)
            };
        }
        assert_eq!(current, tree.root.0);
    }
}

#[test]
fn idempotent_reinsertion() {
    let mut once = MerkleTree::new(3, HashParams(tree_config()));
    once.insert(3, Felt(Fr::from(42u64)));
    let mut twice = MerkleTree::new(3, HashParams(tree_config()));
    twice.insert(3, Felt(Fr::from(42u64)));
    twice.insert(3, Felt(Fr::from(42u64)));
    assert_eq!(once.root.0, twice.root.0);
    for level in 0..=3u32 {
        for index in 0..8u64 {
            assert_eq!(once.get_node(level, index).0, twice.get_node(level, index).0);
        }
    }
    assert_eq!(once.leaves.len(), twice.leaves.len());
}

#[test]
fn overwrite_at_occupied_index() {
    let mut overwritten = MerkleTree::new(3, HashParams(tree_config()));
    overwritten.insert(1, Felt(Fr::from(5u64)));
    overwritten.insert(1, Felt(Fr::from(7u64)));
    let mut direct = MerkleTree::new(3, HashParams(tree_config()));
    direct.insert(1, Felt(Fr::from(7u64)));
    assert_eq!(overwritten.root.0, direct.root.0);
    assert_eq!(overwritten.leaves.get(&1).unwrap().0, Fr::from(7u64));
}

#[test]
fn get_node_default_fallback() {
    let tree = MerkleTree::new(3, HashParams(tree_config()));
    assert_eq!(tree.get_node(0, 7).0, Fr::from(0u64));
    assert_eq!(tree.get_node(2, 1).0, tree.default_nodes[2].0);
}

#[test]
fn mismatched_witness_is_rejected() {
    let mut tree = MerkleTree::new(3, HashParams(tree_config()));
    tree.insert(2, Felt(Fr::from(9u64)));
    let (siblings, mut directions) = tree.get_proof(2);
    directions.pop();
    let params = HashParams(tree_config());
    let folded = compute_root_from_path(&params, &Felt(Fr::from(9u64)), &siblings, &directions);
    assert!(folded.is_none());
}

#[test]
fn parameter_validation() {
    assert!(validate_params(&HashParams(tree_config())));
    let mut zero_rate = tree_config();
    zero_rate.rate = 0;
    assert!(!validate_params(&HashParams(zero_rate)));
    let mut short_ark = tree_config();
    short_ark.ark.pop();
    assert!(!validate_params(&HashParams(short_ark)));
    let mut bad_mds = tree_config();
    bad_mds.mds[0].pop();
    assert!(!validate_params(&HashParams(bad_mds)));
}
