//! The sparse, incrementally updatable Merkle accumulator: a fixed-depth
//! binary hash tree over sparsely populated leaves. Any node whose subtree
//! is entirely unpopulated has the precomputed default value of its level;
//! insertion recomputes only the path from the leaf to the root.

use vstd::prelude::*;
use std::collections::HashMap;
use crate::field::{Felt, felt_of_u64, felt_from_u64, felt_clone};
use crate::poseidon::{HashParams, params_wf, poseidon_hash, hash_pair};
use crate::witness::{parent_of, root_from_path, relation_holds};

verus! {

broadcast use vstd::std_specs::hash::group_hash_axioms;

/// The sibling of a node index within its level: the lowest bit flipped.
pub open spec fn sibling_index(i: u64) -> u64 {
    if i % 2 == 0 {
        (i + 1) as u64
    } else {
        (i - 1) as u64
    }
}

/// The index of the ancestor of leaf `index` at the given level: the leaf
/// index halved once per level.
pub open spec fn child_index(index: u64, level: int) -> u64
    decreases level,
{
    if level <= 0 {
        index
    } else {
        child_index(index, level - 1) / 2
    }
}

pub struct MerkleTree {
    pub depth: u32,
    pub root: Felt,
    pub leaves: HashMap<u64, Felt>,
    /// One sparse level per entry; entry 0 aliases the leaf layer and
    /// entry `depth` holds at most the root.
    pub nodes: Vec<HashMap<u64, Felt>>,
    /// The value of an absent node at each level: entry 0 is the zero
    /// element and each further entry hashes the previous one with itself.
    pub default_nodes: Vec<Felt>,
    pub poseidon_config: HashParams,
}

impl MerkleTree {
    /// Whether a value is stored for the node at `(level, j)`. The
    /// well-formedness quantifiers below trigger on this predicate, so
    /// proofs instantiate them by naming the node they reason about.
    pub open spec fn stored(self, level: int, j: u64) -> bool {
        self.nodes@[level]@.contains_key(j)
    }

    /// The value of the node at `(level, index)`: the stored value if one
    /// is present, the level's default otherwise. Absence is defined
    /// behaviour, never an error.
    pub open spec fn node_at(self, level: int, index: int) -> Felt {
        if 0 <= index <= u64::MAX as int && self.nodes@[level]@.contains_key(index as u64) {
            self.nodes@[level]@[index as u64]
        } else {
            self.default_nodes@[level]
        }
    }

    /// Both per-level tables cover exactly levels `0 ..= depth`.
    pub open spec fn len_ok(self) -> bool {
        &&& self.nodes@.len() == self.depth as int + 1
        &&& self.default_nodes@.len() == self.depth as int + 1
    }

    /// Structural well-formedness: the default chain is the iterated
    /// self-hash of the zero leaf; the leaf map and level 0 agree; every
    /// stored inner node hashes its two children; a stored node's parent
    /// is stored too; only index 0 can be stored at the top; and `root`
    /// is the top node's value.
    pub open spec fn wf(self) -> bool {
        &&& params_wf(self.poseidon_config)
        &&& self.len_ok()
        &&& self.default_nodes@[0] == felt_of_u64(0)
        &&& forall|l: int|
            1 <= l <= self.depth ==> #[trigger] self.default_nodes@[l] == poseidon_hash(
                self.poseidon_config,
                seq![self.default_nodes@[l - 1], self.default_nodes@[l - 1]],
            )
        &&& self.leaves@ == self.nodes@[0]@
        &&& forall|l: int, j: u64|
            1 <= l <= self.depth && #[trigger] self.stored(l, j) ==> self.nodes@[l]@[j]
                == poseidon_hash(
                self.poseidon_config,
                seq![
                    self.node_at(l - 1, 2 * (j as int)),
                    self.node_at(l - 1, 2 * (j as int) + 1),
                ],
            )
        &&& forall|l: int, j: u64|
            0 <= l < self.depth && #[trigger] self.stored(l, j) ==> self.nodes@[l
                + 1]@.contains_key(j / 2)
        &&& forall|j: u64| self.stored(self.depth as int, j) ==> j == 0
        &&& self.root == self.node_at(self.depth as int, 0)
    }
}

/// The value written at `level` on the path of an insertion of `value` at
/// leaf `index` into tree `t`: the leaf value at level 0, and above it the
/// hash of the value below with the sibling read from `t`, ordered by the
/// parity of the child's index.
pub open spec fn path_value(t: MerkleTree, index: u64, value: Felt, level: int) -> Felt
    decreases level,
{
    if level <= 0 {
        value
    } else {
        let c = child_index(index, level - 1);
        parent_of(
            t.poseidon_config,
            t.node_at(level - 1, sibling_index(c) as int),
            path_value(t, index, value, level - 1),
            c % 2 == 1,
        )
    }
}

/// How one insertion turns tree `t0` into tree `t1`: the leaf map gains
/// the pair, every level gains exactly the recomputed path node, and the
/// root becomes the recomputed top value.
pub open spec fn insert_post(t0: MerkleTree, t1: MerkleTree, index: u64, value: Felt) -> bool {
    &&& t1.depth == t0.depth
    &&& t1.poseidon_config == t0.poseidon_config
    &&& t1.default_nodes@ == t0.default_nodes@
    &&& t1.nodes@.len() == t0.nodes@.len()
    &&& t1.leaves@ == t0.leaves@.insert(index, value)
    &&& forall|l: int|
        0 <= l <= t0.depth ==> #[trigger] t1.nodes@[l]@ == t0.nodes@[l]@.insert(
            child_index(index, l),
            path_value(t0, index, value, l),
        )
    &&& t1.root == path_value(t0, index, value, t0.depth as int)
}

impl MerkleTree {
    /// Builds the empty accumulator of the given depth: computes the
    /// default chain bottom-up by repeated self-hashing of the zero leaf,
    /// leaves every level unpopulated, and sets the root to the top
    /// default.
    pub fn new(depth: u32, poseidon_config: HashParams) -> (r: MerkleTree)
        requires
            depth < u32::MAX,
            params_wf(poseidon_config),
        ensures
            r.wf(),
            r.depth == depth,
            r.poseidon_config == poseidon_config,
            r.leaves@ == Map::<u64, Felt>::empty(),
            forall|l: int| 0 <= l <= depth ==> #[trigger] r.nodes@[l]@ == Map::<u64, Felt>::empty(),
            r.root == r.default_nodes@[depth as int],
    {
        let mut default_nodes: Vec<Felt> = Vec::new();
        default_nodes.push(felt_from_u64(0));
        let mut i: u32 = 1;
        while i <= depth
            invariant
                1 <= i,
                depth < u32::MAX,
                params_wf(poseidon_config),
                i as int <= depth as int + 1,
                default_nodes@.len() == i as int,
                default_nodes@[0] == felt_of_u64(0),
                forall|l: int|
                    1 <= l < i ==> #[trigger] default_nodes@[l] == poseidon_hash(
                        poseidon_config,
                        seq![default_nodes@[l - 1], default_nodes@[l - 1]],
                    ),
            decreases depth as int + 1 - i as int,
        {
            let child = &default_nodes[(i - 1) as usize];
            let h = hash_pair(&poseidon_config, child, child);
            default_nodes.push(h);
            i = i + 1;
        }
        let mut nodes: Vec<HashMap<u64, Felt>> = Vec::new();
        let mut l: u32 = 0;
        while l <= depth
            invariant
                depth < u32::MAX,
                l as int <= depth as int + 1,
                nodes@.len() == l as int,
                forall|k: int| 0 <= k < l ==> #[trigger] nodes@[k]@ == Map::<u64, Felt>::empty(),
            decreases depth as int + 1 - l as int,
        {
            nodes.push(HashMap::new());
            l = l + 1;
        }
        let root = felt_clone(&default_nodes[depth as usize]);
        let t = MerkleTree {
            depth,
            root,
            leaves: HashMap::new(),
            nodes,
            default_nodes,
            poseidon_config,
        };
        proof {
            assert forall|l2: int, j: u64|
                1 <= l2 <= t.depth && #[trigger] t.stored(l2, j) implies t.nodes@[l2]@[j]
                == poseidon_hash(
                t.poseidon_config,
                seq![t.node_at(l2 - 1, 2 * (j as int)), t.node_at(l2 - 1, 2 * (j as int) + 1)],
            ) by {
                assert(t.nodes@[l2]@ == Map::<u64, Felt>::empty());
            };
            assert forall|l2: int, j: u64|
                0 <= l2 < t.depth && #[trigger] t.stored(l2, j) implies t.nodes@[l2
                + 1]@.contains_key(j / 2) by {
                assert(t.nodes@[l2]@ == Map::<u64, Felt>::empty());
            };
            assert(!t.nodes@[t.depth as int]@.contains_key(0));
            assert(t.node_at(t.depth as int, 0) == t.default_nodes@[t.depth as int]);
        }
        t
    }

    /// Pure lookup with default fallback; never fails.
    pub fn get_node(&self, level: u32, index: u64) -> (r: Felt)
        requires
            self.len_ok(),
            level <= self.depth,
        ensures
            r == self.node_at(level as int, index as int),
    {
        match self.nodes[level as usize].get(&index) {
            Some(v) => felt_clone(v),
            None => felt_clone(&self.default_nodes[level as usize]),
        }
    }

    /// Records `value` at `leaves[index]` — silently overwriting an
    /// occupied index, by design — and recomputes every ancestor of the
    /// leaf up to the root. Costs one hash and one map write per level,
    /// independent of how many leaves are populated.
    pub fn insert(&mut self, index: u64, value: Felt)
        requires
            old(self).wf(),
            old(self).depth < u32::MAX,
            child_index(index, old(self).depth as int) == 0,
        ensures
            final(self).wf(),
            insert_post(*old(self), *final(self), index, value),
    {
        let ghost t0 = *self;
        let mut current_idx: u64 = index;
        let mut current_val: Felt = felt_clone(&value);
        self.leaves.insert(index, value);
        let v0 = felt_clone(&current_val);
        self.nodes[0].insert(current_idx, v0);
        let mut level: u32 = 1;
        while level <= self.depth
            invariant
                1 <= level,
                level as int <= self.depth as int + 1,
                t0.wf(),
                t0.depth < u32::MAX,
                self.depth == t0.depth,
                self.poseidon_config == t0.poseidon_config,
                self.default_nodes@ == t0.default_nodes@,
                self.root == t0.root,
                self.nodes@.len() == t0.nodes@.len(),
                self.leaves@ == t0.leaves@.insert(index, value),
                current_idx == child_index(index, level as int - 1),
                current_val == path_value(t0, index, value, level as int - 1),
                forall|l: int|
                    0 <= l < level ==> #[trigger] self.nodes@[l]@ == t0.nodes@[l]@.insert(
                        child_index(index, l),
                        path_value(t0, index, value, l),
                    ),
                forall|l: int| level <= l <= t0.depth ==> #[trigger] self.nodes@[l]@ == t0.nodes@[l]@,
            decreases self.depth as int + 1 - level as int,
        {
            proof {
                assert(current_idx % 2 == 0 ==> current_idx != u64::MAX);
            }
            let sibling_idx: u64 = if current_idx % 2 == 0 {
                current_idx + 1
            } else {
                current_idx - 1
            };
            let sibling_val = self.get_node(level - 1, sibling_idx);
            proof {
                assert(sibling_idx == sibling_index(current_idx));
                assert(sibling_idx != current_idx);
                assert(self.node_at(level as int - 1, sibling_idx as int) == t0.node_at(
                    level as int - 1,
                    sibling_idx as int,
                ));
            }
            let next_val = if current_idx % 2 == 0 {
                hash_pair(&self.poseidon_config, &current_val, &sibling_val)
            } else {
                hash_pair(&self.poseidon_config, &sibling_val, &current_val)
            };
            proof {
                assert(next_val == path_value(t0, index, value, level as int));
            }
            current_val = next_val;
            current_idx = current_idx / 2;
            let vc = felt_clone(&current_val);
            self.nodes[level as usize].insert(current_idx, vc);
            level = level + 1;
        }
        self.root = felt_clone(&current_val);
        proof {
            assert(insert_post(t0, *self, index, value));
            lemma_insert_preserves_wf(t0, *self, index, value);
        }
    }

    /// Walks from leaf `index` upward, recording at each level the
    /// sibling's current value and whether the current node is a right
    /// child — exactly the witness shape the membership relation expects,
    /// ordered leaf-to-root.
    pub fn get_proof(&self, index: u64) -> (r: (Vec<Felt>, Vec<bool>))
        requires
            self.len_ok(),
        ensures
            r.0@ == proof_siblings(*self, index),
            r.1@ == proof_dirs(*self, index),
    {
        let mut path: Vec<Felt> = Vec::new();
        let mut path_indices: Vec<bool> = Vec::new();
        let mut current_idx: u64 = index;
        let mut level: u32 = 0;
        while level < self.depth
            invariant
                level <= self.depth,
                self.len_ok(),
                current_idx == child_index(index, level as int),
                path@.len() == level as int,
                path_indices@.len() == level as int,
                forall|l: int|
                    0 <= l < level ==> #[trigger] path@[l] == self.node_at(
                        l,
                        sibling_index(child_index(index, l)) as int,
                    ),
                forall|l: int|
                    0 <= l < level ==> #[trigger] path_indices@[l] == (child_index(index, l) % 2
                        == 1),
            decreases self.depth as int - level as int,
        {
            proof {
                assert(current_idx % 2 == 0 ==> current_idx != u64::MAX);
            }
            let sibling_idx: u64 = if current_idx % 2 == 0 {
                current_idx + 1
            } else {
                current_idx - 1
            };
            proof {
                assert(sibling_idx == sibling_index(current_idx));
            }
            path.push(self.get_node(level, sibling_idx));
            path_indices.push(current_idx % 2 != 0);
            current_idx = current_idx / 2;
            level = level + 1;
        }
        proof {
            assert(path@ =~= proof_siblings(*self, index));
            assert(path_indices@ =~= proof_dirs(*self, index));
        }
        (path, path_indices)
    }
}

/// The sibling values `get_proof` returns for leaf `index`, leaf-to-root.
pub open spec fn proof_siblings(t: MerkleTree, index: u64) -> Seq<Felt> {
    Seq::new(t.depth as nat, |l: int| t.node_at(l, sibling_index(child_index(index, l)) as int))
}

/// The right-child flags `get_proof` returns for leaf `index`, leaf-to-root.
pub open spec fn proof_dirs(t: MerkleTree, index: u64) -> Seq<bool> {
    Seq::new(t.depth as nat, |l: int| child_index(index, l) % 2 == 1)
}

/// An insertion that satisfies `insert_post` leaves the tree well-formed.
proof fn lemma_insert_preserves_wf(t0: MerkleTree, t1: MerkleTree, index: u64, value: Felt)
    requires
        t0.wf(),
        child_index(index, t0.depth as int) == 0,
        insert_post(t0, t1, index, value),
    ensures
        t1.wf(),
{
    let d = t0.depth as int;
    assert forall|l: int, j: u64|
        1 <= l <= t1.depth && #[trigger] t1.stored(l, j) implies t1.nodes@[l]@[j] == poseidon_hash(
        t1.poseidon_config,
        seq![t1.node_at(l - 1, 2 * (j as int)), t1.node_at(l - 1, 2 * (j as int) + 1)],
    ) by {
        let c = child_index(index, l);
        let cprev = child_index(index, l - 1);
        assert(c == cprev / 2);
        assert(t1.nodes@[l]@ == t0.nodes@[l]@.insert(c, path_value(t0, index, value, l)));
        assert(t1.nodes@[l - 1]@ == t0.nodes@[l - 1]@.insert(
            cprev,
            path_value(t0, index, value, l - 1),
        ));
        if j == c {
            assert(t1.nodes@[l]@[j] == path_value(t0, index, value, l));
            if cprev % 2 == 0 {
                assert(cprev == 2 * (c as int));
                assert(sibling_index(cprev) == 2 * (c as int) + 1);
                assert(t1.node_at(l - 1, 2 * (c as int)) == path_value(t0, index, value, l - 1));
                assert(t1.node_at(l - 1, 2 * (c as int) + 1) == t0.node_at(
                    l - 1,
                    sibling_index(cprev) as int,
                ));
            } else {
                assert(cprev == 2 * (c as int) + 1);
                assert(sibling_index(cprev) == 2 * (c as int));
                assert(t1.node_at(l - 1, 2 * (c as int) + 1) == path_value(
                    t0,
                    index,
                    value,
                    l - 1,
                ));
                assert(t1.node_at(l - 1, 2 * (c as int)) == t0.node_at(
                    l - 1,
                    sibling_index(cprev) as int,
                ));
            }
        } else {
            assert(t0.stored(l, j));
            assert(t1.nodes@[l]@[j] == t0.nodes@[l]@[j]);
            assert(2 * (j as int) != cprev as int && 2 * (j as int) + 1 != cprev as int) by {
                assert(cprev / 2 == c);
            };
            assert(t1.node_at(l - 1, 2 * (j as int)) == t0.node_at(l - 1, 2 * (j as int)));
            assert(t1.node_at(l - 1, 2 * (j as int) + 1) == t0.node_at(l - 1, 2 * (j as int) + 1));
        }
    };
    assert forall|l: int, j: u64|
        0 <= l < t1.depth && #[trigger] t1.stored(l, j) implies t1.nodes@[l + 1]@.contains_key(
        j / 2,
    ) by {
        let c = child_index(index, l);
        assert(t1.nodes@[l]@ == t0.nodes@[l]@.insert(c, path_value(t0, index, value, l)));
        assert(t1.nodes@[l + 1]@ == t0.nodes@[l + 1]@.insert(
            child_index(index, l + 1),
            path_value(t0, index, value, l + 1),
        ));
        if j == c {
            assert(child_index(index, l + 1) == c / 2);
        } else {
            assert(t0.stored(l, j));
        }
    };
    assert forall|j: u64| t1.stored(d, j) implies j == 0 by {
        assert(t1.nodes@[d]@ == t0.nodes@[d]@.insert(
            child_index(index, d),
            path_value(t0, index, value, d),
        ));
        if j != child_index(index, d) {
            assert(t0.stored(d, j));
        }
    };
    assert(t1.nodes@[d]@.contains_key(0));
    assert(t1.node_at(d, 0) == path_value(t0, index, value, d));
}

/// The path recomputed after an insertion reads the same sibling values as
/// before it: the siblings lie off the updated path.
proof fn lemma_path_value_stable(t0: MerkleTree, t1: MerkleTree, index: u64, value: Felt, level: int)
    requires
        insert_post(t0, t1, index, value),
        0 <= level <= t0.depth,
    ensures
        path_value(t1, index, value, level) == path_value(t0, index, value, level),
    decreases level,
{
    if level > 0 {
        lemma_path_value_stable(t0, t1, index, value, level - 1);
        let c = child_index(index, level - 1);
        assert(t1.nodes@[level - 1]@ == t0.nodes@[level - 1]@.insert(
            c,
            path_value(t0, index, value, level - 1),
        ));
        assert(sibling_index(c) != c);
        assert(t1.node_at(level - 1, sibling_index(c) as int) == t0.node_at(
            level - 1,
            sibling_index(c) as int,
        ));
    }
}

/// Idempotent re-insertion: inserting the same `(index, value)` pair a
/// second time leaves the root, every node and the leaf map exactly as a
/// single insertion left them.
pub proof fn lemma_insert_idempotent(
    t0: MerkleTree,
    t1: MerkleTree,
    t2: MerkleTree,
    index: u64,
    value: Felt,
)
    requires
        insert_post(t0, t1, index, value),
        insert_post(t1, t2, index, value),
    ensures
        t2.root == t1.root,
        t2.leaves@ == t1.leaves@,
        t2.default_nodes@ == t1.default_nodes@,
        forall|l: int| 0 <= l <= t0.depth ==> #[trigger] t2.nodes@[l]@ == t1.nodes@[l]@,
{
    assert(t2.leaves@ =~= t1.leaves@);
    assert forall|l: int| 0 <= l <= t0.depth implies #[trigger] t2.nodes@[l]@ == t1.nodes@[l]@ by {
        lemma_path_value_stable(t0, t1, index, value, l);
        assert(t2.nodes@[l]@ =~= t1.nodes@[l]@);
    };
    lemma_path_value_stable(t0, t1, index, value, t0.depth as int);
}

/// Ascends the stored path from level `k`: folding the node at level `k`
/// up through the remaining proof levels reaches the root.
proof fn lemma_ascend(t: MerkleTree, index: u64, k: int)
    requires
        t.wf(),
        0 <= k <= t.depth,
        t.nodes@[k]@.contains_key(child_index(index, k)),
    ensures
        root_from_path(
            t.poseidon_config,
            t.node_at(k, child_index(index, k) as int),
            proof_siblings(t, index).skip(k),
            proof_dirs(t, index).skip(k),
        ) == t.root,
    decreases t.depth as int - k,
{
    let c = child_index(index, k);
    if k == t.depth {
        assert(t.stored(t.depth as int, c));
        assert(c == 0);
        assert(proof_siblings(t, index).skip(k).len() == 0);
    } else {
        let cn = child_index(index, k + 1);
        assert(cn == c / 2);
        assert(t.stored(k, c));
        assert(t.nodes@[k + 1]@.contains_key(cn));
        lemma_ascend(t, index, k + 1);
        assert(t.stored(k + 1, cn));
        assert(t.nodes@[k + 1]@[cn] == poseidon_hash(
            t.poseidon_config,
            seq![t.node_at(k, 2 * (cn as int)), t.node_at(k, 2 * (cn as int) + 1)],
        ));
        let sibs = proof_siblings(t, index);
        let dirs = proof_dirs(t, index);
        assert(sibs.skip(k)[0] == t.node_at(k, sibling_index(c) as int));
        assert(dirs.skip(k)[0] == (c % 2 == 1));
        assert(sibs.skip(k).drop_first() =~= sibs.skip(k + 1));
        assert(dirs.skip(k).drop_first() =~= dirs.skip(k + 1));
        if c % 2 == 0 {
            assert(c == 2 * (cn as int));
            assert(sibling_index(c) == 2 * (cn as int) + 1);
        } else {
            assert(c == 2 * (cn as int) + 1);
            assert(sibling_index(c) == 2 * (cn as int));
        }
        assert(parent_of(
            t.poseidon_config,
            t.node_at(k, sibling_index(c) as int),
            t.node_at(k, c as int),
            c % 2 == 1,
        ) == t.node_at(k + 1, cn as int));
    }
}

/// Insertion/proof round trip: for any populated leaf index, folding the
/// stored leaf value up through the witness that `get_proof` describes
/// yields exactly the accumulator's current root.
pub proof fn lemma_proof_round_trip(t: MerkleTree, index: u64)
    requires
        t.wf(),
        t.leaves@.contains_key(index),
    ensures
        root_from_path(
            t.poseidon_config,
            t.leaves@[index],
            proof_siblings(t, index),
            proof_dirs(t, index),
        ) == t.root,
{
    assert(t.nodes@[0]@.contains_key(child_index(index, 0)));
    lemma_ascend(t, index, 0);
    assert(proof_siblings(t, index).skip(0) =~= proof_siblings(t, index));
    assert(proof_dirs(t, index).skip(0) =~= proof_dirs(t, index));
}

/// Relation/accumulator parity, the satisfiable direction: a leaf that was
/// committed as the hash of a secret, together with the witness the
/// accumulator produces for it and the nullifier derived from the same
/// secret and any context value, satisfies the membership relation.
pub proof fn lemma_tree_witness_satisfies(
    t: MerkleTree,
    index: u64,
    secret: Felt,
    external_nullifier: Felt,
)
    requires
        t.wf(),
        t.leaves@.contains_key(index),
        t.leaves@[index] == poseidon_hash(t.poseidon_config, seq![secret]),
    ensures
        relation_holds(
            t.poseidon_config,
            t.root,
            poseidon_hash(t.poseidon_config, seq![secret, external_nullifier]),
            external_nullifier,
            secret,
            proof_siblings(t, index),
            proof_dirs(t, index),
        ),
{
    lemma_proof_round_trip(t, index);
}

} // verus!
