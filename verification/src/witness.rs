//! Native reconstruction of a root from an inclusion-path witness: the
//! ordered sibling values and the parallel "am I the right child" flags
//! that the accumulator hands out and the membership relation consumes.

use vstd::prelude::*;
use crate::field::Felt;
use crate::poseidon::{HashParams, params_wf, poseidon_hash, hash_pair};

verus! {

/// One step up the tree: the parent of `current` given its sibling and
/// whether `current` is the right child. A right child hashes as
/// `Hash(sibling, current)`, a left child as `Hash(current, sibling)` —
/// the same ordering rule the accumulator applies by index parity.
pub open spec fn parent_of(cfg: HashParams, sibling: Felt, current: Felt, is_right: bool) -> Felt {
    if is_right {
        poseidon_hash(cfg, seq![sibling, current])
    } else {
        poseidon_hash(cfg, seq![current, sibling])
    }
}

/// The root obtained by folding a leaf up through a path witness,
/// leaf-to-root order.
pub open spec fn root_from_path(cfg: HashParams, leaf: Felt, siblings: Seq<Felt>, dirs: Seq<bool>) -> Felt
    decreases siblings.len(),
{
    if siblings.len() == 0 {
        leaf
    } else {
        root_from_path(cfg, parent_of(cfg, siblings[0], leaf, dirs[0]), siblings.drop_first(), dirs.drop_first())
    }
}

/// Folding one more level onto the end of a path hashes the previous
/// result with the appended sibling.
pub proof fn lemma_root_from_path_push(cfg: HashParams, leaf: Felt, siblings: Seq<Felt>, dirs: Seq<bool>, s: Felt, d: bool)
    requires
        siblings.len() == dirs.len(),
    ensures
        root_from_path(cfg, leaf, siblings.push(s), dirs.push(d))
            == parent_of(cfg, s, root_from_path(cfg, leaf, siblings, dirs), d),
    decreases siblings.len(),
{
    if siblings.len() == 0 {
        reveal_with_fuel(root_from_path, 2);
        assert(siblings.push(s)[0] == s);
        assert(dirs.push(d)[0] == d);
        assert(siblings.push(s).drop_first() =~= siblings);
        assert(dirs.push(d).drop_first() =~= dirs);
    } else {
        assert(siblings.push(s).drop_first() =~= siblings.drop_first().push(s));
        assert(dirs.push(d).drop_first() =~= dirs.drop_first().push(d));
        assert(siblings.push(s)[0] == siblings[0]);
        assert(dirs.push(d)[0] == dirs[0]);
        lemma_root_from_path_push(
            cfg,
            parent_of(cfg, siblings[0], leaf, dirs[0]),
            siblings.drop_first(),
            dirs.drop_first(),
            s,
            d,
        );
    }
}

/// Recomputes the root natively from a leaf and a path witness, exactly as
/// `root_from_path` states it. A witness whose two sequences differ in
/// length is malformed and yields `None`; every well-formed witness yields
/// `Some`.
pub fn compute_root_from_path(cfg: &HashParams, leaf: &Felt, siblings: &Vec<Felt>, dirs: &Vec<bool>) -> (r: Option<Felt>)
    requires
        params_wf(*cfg),
    ensures
        r is Some <==> siblings@.len() == dirs@.len(),
        r matches Some(v) ==> v == root_from_path(*cfg, *leaf, siblings@, dirs@),
{
    if siblings.len() != dirs.len() {
        return None;
    }
    let mut current: Felt = crate::field::felt_clone(leaf);
    let mut i: usize = 0;
    while i < siblings.len()
        invariant
            params_wf(*cfg),
            i <= siblings@.len(),
            siblings@.len() == dirs@.len(),
            current == root_from_path(*cfg, *leaf, siblings@.take(i as int), dirs@.take(i as int)),
        decreases siblings@.len() - i,
    {
        let s = &siblings[i];
        let next = if dirs[i] {
            hash_pair(cfg, s, &current)
        } else {
            hash_pair(cfg, &current, s)
        };
        proof {
            lemma_root_from_path_push(*cfg, *leaf, siblings@.take(i as int), dirs@.take(i as int), siblings@[i as int], dirs@[i as int]);
            assert(siblings@.take(i + 1) =~= siblings@.take(i as int).push(siblings@[i as int]));
            assert(dirs@.take(i + 1) =~= dirs@.take(i as int).push(dirs@[i as int]));
        }
        current = next;
        i += 1;
    }
    proof {
        assert(siblings@.take(siblings@.len() as int) =~= siblings@);
        assert(dirs@.take(dirs@.len() as int) =~= dirs@);
    }
    Some(current)
}

/// The mathematical relation the membership circuit enforces: the leaf
/// derived from the secret folds up through the witness to the public
/// root, and the nullifier derived from the secret and the context value
/// equals the public nullifier hash.
pub open spec fn relation_holds(
    cfg: HashParams,
    root: Felt,
    nullifier_hash: Felt,
    external_nullifier: Felt,
    secret: Felt,
    siblings: Seq<Felt>,
    dirs: Seq<bool>,
) -> bool {
    &&& siblings.len() == dirs.len()
    &&& root_from_path(cfg, poseidon_hash(cfg, seq![secret]), siblings, dirs) == root
    &&& poseidon_hash(cfg, seq![secret, external_nullifier]) == nullifier_hash
}

} // verus!
