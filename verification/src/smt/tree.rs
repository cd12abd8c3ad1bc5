//! The sparse Merkle tree: an authenticated map from item identifiers to
//! quantities.
//!
//! Only the nodes that an update has touched are stored; every other node is
//! the hash of an empty subtree of its height. The view of a tree is the map
//! from each item that it holds to its quantity, which is never zero: an
//! item set back to zero is an item that was never there. Every hash, the
//! root included, is a function of that map.

use super::merkle_proof::{climb_spec, hash_slot_leaf, leaf_hash_spec, MerkleProof};
use crate::anemoi::native::{anemoi_hash_two, collision, collision_exists, hash2_spec};
use crate::field::{modulus, values, FieldElement};
use std::collections::HashMap;
use vstd::arithmetic::power2::{lemma_pow2_unfold, pow2};
use vstd::bits::{lemma_u64_pow2_no_overflow, lemma_u64_shl_is_mul};
use vstd::prelude::*;
use vstd::std_specs::hash::*;
use vstd::std_specs::iter::IteratorSpec;

verus! {

broadcast use vstd::std_specs::hash::group_hash_axioms;

/// The depth that trees have unless told otherwise: room for 4096 items.
pub const DEFAULT_DEPTH: usize = 12;

/// The index, at `level`, of the node above leaf `id`.
pub open spec fn path_index(id: nat, level: nat) -> nat
    decreases level,
{
    if level == 0 {
        id
    } else {
        path_index(id, (level - 1) as nat) / 2
    }
}

/// The index of the other child of a node's parent.
pub open spec fn sibling(index: nat) -> nat {
    if index % 2 == 0 {
        index + 1
    } else {
        (index - 1) as nat
    }
}

/// The hash of an empty subtree of height `level`.
pub open spec fn default_spec(level: nat) -> nat
    decreases level,
{
    if level == 0 {
        hash2_spec(0, 0)
    } else {
        hash2_spec(default_spec((level - 1) as nat), default_spec((level - 1) as nat))
    }
}

/// The quantity that a map holds of an item: zero where it holds none.
pub open spec fn quantity_of(w: Map<u64, u64>, id: u64) -> u64 {
    if w.contains_key(id) {
        w[id]
    } else {
        0
    }
}

/// The map after the quantity of an item is written: with quantity zero the
/// item leaves the map.
pub open spec fn set_quantity(w: Map<u64, u64>, id: u64, q: u64) -> Map<u64, u64> {
    if q == 0 {
        w.remove(id)
    } else {
        w.insert(id, q)
    }
}

/// Whether two maps hold the same quantity of every item.
pub open spec fn same_quantities(a: Map<u64, u64>, b: Map<u64, u64>) -> bool {
    forall|id: u64| quantity_of(a, id) == quantity_of(b, id)
}

/// The hash of leaf `index`: of the item and its quantity where the map
/// holds some of the item, of two zeros where it holds none.
pub open spec fn leaf_spec(w: Map<u64, u64>, index: nat) -> nat {
    if index <= u64::MAX {
        leaf_hash_spec(index as u64, quantity_of(w, index as u64))
    } else {
        hash2_spec(0, 0)
    }
}

/// The hash of the node at `level` and `index` in the tree that holds `w`.
pub open spec fn node_spec(w: Map<u64, u64>, level: nat, index: nat) -> nat
    decreases level,
{
    if level == 0 {
        leaf_spec(w, index)
    } else {
        hash2_spec(
            node_spec(w, (level - 1) as nat, 2 * index),
            node_spec(w, (level - 1) as nat, 2 * index + 1),
        )
    }
}

/// The root of the tree of the given depth that holds `w`.
pub open spec fn root_spec(w: Map<u64, u64>, depth: nat) -> nat {
    node_spec(w, depth, 0)
}

/// The siblings on the way from leaf `id` to the root.
pub open spec fn proof_path_spec(w: Map<u64, u64>, id: nat, depth: nat) -> Seq<nat> {
    Seq::new(depth, |l: int| node_spec(w, l as nat, sibling(path_index(id, l as nat))))
}

/// For each level on the way from leaf `id`, whether the node is a right
/// child.
pub open spec fn proof_indices_spec(id: nat, depth: nat) -> Seq<bool> {
    Seq::new(depth, |l: int| path_index(id, l as nat) % 2 == 1)
}

/// The map that a list of updates leaves, applied in order to `w`.
pub open spec fn apply_items(w: Map<u64, u64>, items: Seq<(u64, u64)>) -> Map<u64, u64>
    decreases items.len(),
{
    if items.len() == 0 {
        w
    } else {
        set_quantity(apply_items(w, items.drop_last()), items.last().0, items.last().1)
    }
}

/// An empty subtree hashes to the default of its height.
pub proof fn lemma_empty_node(level: nat, index: nat)
    ensures
        node_spec(Map::empty(), level, index) == default_spec(level),
    decreases level,
{
    if level > 0 {
        lemma_empty_node((level - 1) as nat, 2 * index);
        lemma_empty_node((level - 1) as nat, 2 * index + 1);
    }
}

/// Writing a leaf changes no node but those above it.
pub proof fn lemma_node_unchanged(w: Map<u64, u64>, id: u64, q: u64, level: nat, index: nat)
    requires
        path_index(id as nat, level) != index,
    ensures
        node_spec(w.insert(id, q), level, index) == node_spec(w, level, index),
    decreases level,
{
    if level > 0 {
        lemma_node_unchanged(w, id, q, (level - 1) as nat, 2 * index);
        lemma_node_unchanged(w, id, q, (level - 1) as nat, 2 * index + 1);
    }
}

/// An identifier below two to the `depth` has the root above it.
pub proof fn lemma_path_reaches_root(id: nat, level: nat, depth: nat)
    requires
        id < pow2(depth),
        level <= depth,
    ensures
        path_index(id, level) < pow2((depth - level) as nat),
    decreases level,
{
    if level > 0 {
        lemma_path_reaches_root(id, (level - 1) as nat, depth);
        lemma_pow2_unfold((depth - level + 1) as nat);
    }
}

/// Climbing from a leaf along the siblings of its own path arrives, after `n`
/// levels, at the node above the leaf.
pub proof fn lemma_climb_own_path(w: Map<u64, u64>, id: nat, depth: nat, n: nat)
    requires
        n <= depth,
    ensures
        climb_spec(
            node_spec(w, 0, id),
            proof_path_spec(w, id, depth),
            proof_indices_spec(id, depth),
            n,
        ) == node_spec(w, n, path_index(id, n)),
    decreases n,
{
    if n > 0 {
        lemma_climb_own_path(w, id, depth, (n - 1) as nat);
        let c = path_index(id, (n - 1) as nat);
        let p = path_index(id, n);
        assert(c == 2 * p || c == 2 * p + 1);
        assert(sibling(c) == if c == 2 * p {
            2 * p + 1
        } else {
            2 * p
        });
    }
}

/// Maps that hold the same quantities have the same nodes: an item with
/// quantity zero counts as one that is not there.
pub proof fn lemma_same_nodes(a: Map<u64, u64>, b: Map<u64, u64>, level: nat, index: nat)
    requires
        same_quantities(a, b),
    ensures
        node_spec(a, level, index) == node_spec(b, level, index),
    decreases level,
{
    if level > 0 {
        lemma_same_nodes(a, b, (level - 1) as nat, 2 * index);
        lemma_same_nodes(a, b, (level - 1) as nat, 2 * index + 1);
    } else if index <= u64::MAX {
        assert(quantity_of(a, index as u64) == quantity_of(b, index as u64));
    }
}

/// The round trip of a membership proof: where the map holds quantity `q` of
/// item `id`, be it zero, climbing from the leaf of `id` and `q` along the
/// proof for `id` arrives at the root.
pub proof fn lemma_proof_round_trip(w: Map<u64, u64>, id: u64, q: u64, depth: nat)
    requires
        (id as nat) < pow2(depth),
        quantity_of(w, id) == q,
    ensures
        climb_spec(
            leaf_hash_spec(id, q),
            proof_path_spec(w, id as nat, depth),
            proof_indices_spec(id as nat, depth),
            depth,
        ) == root_spec(w, depth),
{
    lemma_climb_own_path(w, id as nat, depth, depth);
    lemma_path_reaches_root(id as nat, depth, depth);
    assert(pow2(0) == 1) by {
        vstd::arithmetic::power2::lemma2_to64();
    }
}

/// Writing a leaf changes none of the siblings on its own way to the root.
pub proof fn lemma_own_path_unchanged(w: Map<u64, u64>, id: u64, q: u64, depth: nat)
    ensures
        proof_path_spec(w.insert(id, q), id as nat, depth) == proof_path_spec(w, id as nat, depth),
{
    let after = proof_path_spec(w.insert(id, q), id as nat, depth);
    let before = proof_path_spec(w, id as nat, depth);
    assert forall|l: int| 0 <= l < depth implies #[trigger] after[l] == before[l] by {
        lemma_node_unchanged(w, id, q, l as nat, sibling(path_index(id as nat, l as nat)));
    }
    assert(after =~= before);
}

/// The proof for an item, drawn before the item is written, leads from the
/// leaf that is written to the root after the writing.
pub proof fn lemma_proof_leads_to_new_root(w: Map<u64, u64>, id: u64, q: u64, depth: nat)
    requires
        (id as nat) < pow2(depth),
    ensures
        climb_spec(
            leaf_hash_spec(id, q),
            proof_path_spec(w, id as nat, depth),
            proof_indices_spec(id as nat, depth),
            depth,
        ) == root_spec(set_quantity(w, id, q), depth),
{
    lemma_own_path_unchanged(w, id, q, depth);
    lemma_proof_round_trip(w.insert(id, q), id, q, depth);
    assert(same_quantities(w.insert(id, q), set_quantity(w, id, q)));
    lemma_same_nodes(w.insert(id, q), set_quantity(w, id, q), depth, 0);
}

/// The proof for an item leads from the leaf that the tree holds for it to
/// the root: from the hash of the item and its quantity where the map holds
/// some of it, from the hash of two zeros where it holds none.
pub proof fn lemma_proof_leads_to_root(w: Map<u64, u64>, id: u64, depth: nat)
    requires
        (id as nat) < pow2(depth),
    ensures
        climb_spec(
            leaf_spec(w, id as nat),
            proof_path_spec(w, id as nat, depth),
            proof_indices_spec(id as nat, depth),
            depth,
        ) == root_spec(w, depth),
{
    lemma_climb_own_path(w, id as nat, depth, depth);
    lemma_path_reaches_root(id as nat, depth, depth);
    assert(pow2(0) == 1) by {
        vstd::arithmetic::power2::lemma2_to64();
    }
}

/// A climb binds its leaf: two climbs along the same siblings, all of them
/// residues, that start from different residues arrive at the same hash only
/// if the hash has a collision.
pub proof fn lemma_climb_binds(
    leaf1: nat,
    leaf2: nat,
    path: Seq<nat>,
    indices: Seq<bool>,
    n: nat,
)
    requires
        leaf1 < modulus(),
        leaf2 < modulus(),
        leaf1 != leaf2,
        n <= path.len(),
        forall|i: int| 0 <= i < n ==> #[trigger] path[i] < modulus(),
        climb_spec(leaf1, path, indices, n) == climb_spec(leaf2, path, indices, n),
    ensures
        collision_exists(),
    decreases n,
{
    if n > 0 {
        let c1 = climb_spec(leaf1, path, indices, (n - 1) as nat);
        let c2 = climb_spec(leaf2, path, indices, (n - 1) as nat);
        lemma_climb_is_residue(leaf1, path, indices, (n - 1) as nat);
        lemma_climb_is_residue(leaf2, path, indices, (n - 1) as nat);
        let s = path[n - 1];
        if c1 == c2 {
            lemma_climb_binds(leaf1, leaf2, path, indices, (n - 1) as nat);
        } else if indices[n - 1] {
            assert(collision(s, c1, s, c2));
        } else {
            assert(collision(c1, s, c2, s));
        }
    }
}

/// A climb from a residue arrives at a residue.
pub proof fn lemma_climb_is_residue(leaf: nat, path: Seq<nat>, indices: Seq<bool>, n: nat)
    requires
        leaf < modulus(),
    ensures
        climb_spec(leaf, path, indices, n) < modulus(),
{
}

/// The hash of every node is a residue.
pub proof fn lemma_node_is_residue(w: Map<u64, u64>, level: nat, index: nat)
    ensures
        node_spec(w, level, index) < modulus(),
{
}

/// A proof does not verify for a quantity that the map does not hold: where
/// the map holds quantity `q` of item `id`, the proof for `id` leads from the
/// leaf of another quantity to the root only if the hash has a collision.
pub proof fn lemma_wrong_quantity_rejected(w: Map<u64, u64>, id: u64, q: u64, other: u64, depth: nat)
    requires
        (id as nat) < pow2(depth),
        quantity_of(w, id) == q,
        other != q,
        climb_spec(
            leaf_hash_spec(id, other),
            proof_path_spec(w, id as nat, depth),
            proof_indices_spec(id as nat, depth),
            depth,
        ) == root_spec(w, depth),
    ensures
        collision_exists(),
{
    lemma_proof_round_trip(w, id, q, depth);
    let leaf1 = leaf_hash_spec(id, q);
    let leaf2 = leaf_hash_spec(id, other);
    if leaf1 == leaf2 {
        if q == 0 {
            assert(collision(0, 0, id as nat, other as nat));
        } else if other == 0 {
            assert(collision(id as nat, q as nat, 0, 0));
        } else {
            assert(collision(id as nat, q as nat, id as nat, other as nat));
        }
    } else {
        let path = proof_path_spec(w, id as nat, depth);
        assert forall|i: int| 0 <= i < depth implies #[trigger] path[i] < modulus() by {
            lemma_node_is_residue(w, i as nat, sibling(path_index(id as nat, i as nat)));
        }
        lemma_climb_binds(leaf1, leaf2, path, proof_indices_spec(id as nat, depth), depth);
    }
}

/// After any list of updates that ends with item `id` set to quantity `q`,
/// the map holds `q` of `id`, and the proof for `id` leads from the leaf of
/// `id` and `q` to the root.
pub proof fn lemma_round_trip_after_updates(
    w: Map<u64, u64>,
    items: Seq<(u64, u64)>,
    id: u64,
    q: u64,
    depth: nat,
)
    requires
        (id as nat) < pow2(depth),
        items.len() > 0,
        items.last() == (id, q),
    ensures
        quantity_of(apply_items(w, items), id) == q,
        climb_spec(
            leaf_hash_spec(id, q),
            proof_path_spec(apply_items(w, items), id as nat, depth),
            proof_indices_spec(id as nat, depth),
            depth,
        ) == root_spec(apply_items(w, items), depth),
{
    lemma_proof_round_trip(apply_items(w, items), id, q, depth);
}

/// Two writes to different items give the same tree in either order.
pub proof fn lemma_update_order(w: Map<u64, u64>, a: u64, qa: u64, b: u64, qb: u64, depth: nat)
    requires
        a != b,
    ensures
        root_spec(set_quantity(set_quantity(w, a, qa), b, qb), depth) == root_spec(
            set_quantity(set_quantity(w, b, qb), a, qa),
            depth,
        ),
{
    assert(set_quantity(set_quantity(w, a, qa), b, qb) =~= set_quantity(
        set_quantity(w, b, qb),
        a,
        qa,
    ));
}

/// Setting an item back to zero gives the tree that never held it.
pub proof fn lemma_zeroed_is_empty(w: Map<u64, u64>, id: u64, q: u64, depth: nat)
    requires
        !w.contains_key(id),
    ensures
        set_quantity(set_quantity(w, id, q), id, 0) == w,
        root_spec(set_quantity(set_quantity(w, id, q), id, 0), depth) == root_spec(w, depth),
{
    assert(set_quantity(set_quantity(w, id, q), id, 0) =~= w);
}

/// Writing what is already there changes nothing.
pub proof fn lemma_update_idempotent(w: Map<u64, u64>, a: u64, qa: u64, depth: nat)
    ensures
        root_spec(set_quantity(set_quantity(w, a, qa), a, qa), depth) == root_spec(
            set_quantity(w, a, qa),
            depth,
        ),
{
    assert(set_quantity(set_quantity(w, a, qa), a, qa) =~= set_quantity(w, a, qa));
}

/// The root depends on the final map alone: two lists of updates that leave
/// the same map leave the same root, whatever their order.
pub proof fn lemma_order_independence(
    first: Seq<(u64, u64)>,
    second: Seq<(u64, u64)>,
    depth: nat,
)
    requires
        apply_items(Map::empty(), first) == apply_items(Map::empty(), second),
    ensures
        root_spec(apply_items(Map::empty(), first), depth) == root_spec(
            apply_items(Map::empty(), second),
            depth,
        ),
{
}

proof fn lemma_index_bits(x: u64)
    ensures
        (x >> 1) == x / 2,
        (x & 1) == x % 2,
        (x ^ 1) == sibling(x as nat),
{
    assert((x >> 1) == x / 2) by (bit_vector);
    assert((x & 1) == x % 2) by (bit_vector);
    assert(x % 2 == 0 ==> (x ^ 1) == x + 1) by (bit_vector);
    assert(x % 2 != 0 ==> (x ^ 1) == x - 1) by (bit_vector);
}

/// The stored hash of a node, or the default of its level.
fn lookup(
    nodes: &Vec<HashMap<u64, FieldElement>>,
    defaults: &Vec<FieldElement>,
    level: usize,
    index: u64,
) -> (h: FieldElement)
    requires
        level < nodes@.len(),
        level < defaults@.len(),
    ensures
        h@ == stored_spec(nodes@, defaults@, level as int, index),
{
    match nodes[level].get(&index) {
        Some(h) => *h,
        None => defaults[level],
    }
}

/// What `lookup` finds for a node.
pub closed spec fn stored_spec(
    nodes: Seq<HashMap<u64, FieldElement>>,
    defaults: Seq<FieldElement>,
    level: int,
    index: u64,
) -> nat {
    if nodes[level]@.contains_key(index) {
        nodes[level]@[index]@
    } else {
        defaults[level]@
    }
}

/// Whether what is stored for `level` is right for the map `w`: each hash
/// that is there is the hash of its node, and each node that is not there
/// has the default hash of the level.
pub closed spec fn level_matches(stored: Map<u64, FieldElement>, w: Map<u64, u64>, level: int) -> bool {
    forall|index: u64|
        if #[trigger] stored.contains_key(index) {
            stored[index]@ == node_spec(w, level as nat, index as nat)
        } else {
            node_spec(w, level as nat, index as nat) == default_spec(level as nat)
        }
}

/// What a level holds, or the default, is the hash of the node.
proof fn lemma_stored_is_node(
    nodes: Seq<HashMap<u64, FieldElement>>,
    defaults: Seq<FieldElement>,
    w: Map<u64, u64>,
    level: int,
    index: u64,
)
    requires
        0 <= level < nodes.len(),
        level < defaults.len(),
        level_matches(nodes[level]@, w, level),
        defaults[level]@ == default_spec(level as nat),
    ensures
        stored_spec(nodes, defaults, level, index) == node_spec(w, level as nat, index as nat),
{
    assert(nodes[level]@.contains_key(index) || !nodes[level]@.contains_key(index));
}

/// A level stays right when the hash of the node above the written leaf is
/// stored in it.
proof fn lemma_level_after_write(
    stored: Map<u64, FieldElement>,
    older: Map<u64, u64>,
    item_id: u64,
    quantity: u64,
    level: int,
    index: u64,
    hash: FieldElement,
)
    requires
        0 <= level,
        level_matches(stored, older, level),
        index as nat == path_index(item_id as nat, level as nat),
        hash@ == node_spec(older.insert(item_id, quantity), level as nat, index as nat),
    ensures
        level_matches(stored.insert(index, hash), older.insert(item_id, quantity), level),
{
    let newer = older.insert(item_id, quantity);
    let after = stored.insert(index, hash);
    assert forall|i: u64|
        if #[trigger] after.contains_key(i) {
            after[i]@ == node_spec(newer, level as nat, i as nat)
        } else {
            node_spec(newer, level as nat, i as nat) == default_spec(level as nat)
        } by {
        if i != index {
            assert(stored.contains_key(i) == after.contains_key(i));
            lemma_node_unchanged(older, item_id, quantity, level as nat, i as nat);
        }
    }
}

/// A level that is right for a map is right for every map that holds the
/// same quantities.
proof fn lemma_level_same_quantities(
    stored: Map<u64, FieldElement>,
    a: Map<u64, u64>,
    b: Map<u64, u64>,
    level: int,
)
    requires
        0 <= level,
        level_matches(stored, a, level),
        same_quantities(a, b),
    ensures
        level_matches(stored, b, level),
{
    assert forall|i: u64|
        if #[trigger] stored.contains_key(i) {
            stored[i]@ == node_spec(b, level as nat, i as nat)
        } else {
            node_spec(b, level as nat, i as nat) == default_spec(level as nat)
        } by {
        lemma_same_nodes(a, b, level as nat, i as nat);
    }
}

/// The hash of a node from the hashes of its children: of the node on the
/// way from a leaf and of its sibling.
proof fn lemma_parent_hash(w: Map<u64, u64>, level: nat, index: nat)
    ensures
        node_spec(w, level + 1, index / 2) == if index % 2 == 0 {
            hash2_spec(node_spec(w, level, index), node_spec(w, level, sibling(index)))
        } else {
            hash2_spec(node_spec(w, level, sibling(index)), node_spec(w, level, index))
        },
{
    let p = index / 2;
    assert(index == 2 * p || index == 2 * p + 1);
}

/// A sparse Merkle tree of fixed depth over the Anemoi hash.
#[derive(Clone)]
pub struct SparseMerkleTree {
    depth: usize,
    nodes: Vec<HashMap<u64, FieldElement>>,
    leaves: HashMap<u64, u64>,
    defaults: Vec<FieldElement>,
}

impl View for SparseMerkleTree {
    type V = Map<u64, u64>;

    /// The items that the tree holds, each with its quantity, which is not
    /// zero.
    closed spec fn view(&self) -> Map<u64, u64> {
        self.leaves@
    }
}

impl SparseMerkleTree {
    /// The depth of the tree.
    pub closed spec fn spec_depth(&self) -> nat {
        self.depth as nat
    }

    /// The quantity of an item: zero where the tree holds none of it.
    pub open spec fn quantity_spec(&self, item_id: u64) -> u64 {
        quantity_of(self@, item_id)
    }

    /// The shape that every level above `upto` has for the map `older`, and
    /// every level up to it for the map `newer`.
    spec fn shaped(&self, older: Map<u64, u64>, newer: Map<u64, u64>, upto: int) -> bool {
        &&& self.depth < 64
        &&& self.nodes@.len() == self.depth + 1
        &&& self.defaults@.len() == self.depth + 1
        &&& forall|l: int|
            0 <= l <= self.depth ==> (#[trigger] self.defaults@[l])@ == default_spec(l as nat)
        &&& forall|l: int|
            0 <= l <= upto ==> level_matches((#[trigger] self.nodes@[l])@, newer, l)
        &&& forall|l: int|
            upto < l <= self.depth ==> level_matches((#[trigger] self.nodes@[l])@, older, l)
    }

    /// The invariant of the tree: every stored hash is the hash of its node
    /// for the map that the tree holds, every node that is not stored has the
    /// default hash of its level, the quantities kept are the ones that are
    /// not zero, and no identifier lies beyond the capacity.
    pub closed spec fn wf(&self) -> bool {
        &&& self.shaped(self@, self@, self.depth as int)
        &&& forall|id: u64| #[trigger]
            self.leaves@.contains_key(id) ==> self.leaves@[id] != 0 && (id as nat) < pow2(
                self.depth as nat,
            )
    }

    /// What holds of a well-formed tree: its depth is below 64, every item
    /// that it holds lies below two to its depth, and no quantity that it
    /// holds is zero.
    pub proof fn lemma_capacity(&self)
        requires
            self.wf(),
        ensures
            self.spec_depth() < 64,
            forall|id: u64| #[trigger]
                self@.contains_key(id) ==> (id as nat) < pow2(self.spec_depth()) && self@[id] != 0,
    {
    }

    /// The hashes of empty subtrees, one for each level from the leaves to
    /// the root.
    fn compute_defaults(depth: usize) -> (defaults: Vec<FieldElement>)
        requires
            depth < 64,
        ensures
            defaults@.len() == depth + 1,
            forall|l: int| 0 <= l <= depth ==> (#[trigger] defaults@[l])@ == default_spec(l as nat),
    {
        let mut defaults: Vec<FieldElement> = Vec::new();
        let zero = FieldElement::zero();
        defaults.push(anemoi_hash_two(zero, zero));
        let mut level: usize = 0;
        while level < depth
            invariant
                level <= depth,
                defaults@.len() == level + 1,
                forall|l: int|
                    0 <= l <= level ==> (#[trigger] defaults@[l])@ == default_spec(l as nat),
            decreases depth - level,
        {
            let prev = defaults[level];
            defaults.push(anemoi_hash_two(prev, prev));
            level += 1;
        }
        defaults
    }

    /// An empty tree of the given depth, which must be below 64.
    pub fn new(depth: usize) -> (tree: Self)
        requires
            depth < 64,
        ensures
            tree.wf(),
            tree.spec_depth() == depth,
            tree@ == Map::<u64, u64>::empty(),
    {
        let defaults = Self::compute_defaults(depth);
        let mut nodes: Vec<HashMap<u64, FieldElement>> = Vec::new();
        let mut level: usize = 0;
        while level <= depth
            invariant
                level <= depth + 1,
                depth < 64,
                nodes@.len() == level,
                forall|l: int| 0 <= l < level ==> (#[trigger] nodes@[l])@ == Map::<
                    u64,
                    FieldElement,
                >::empty(),
            decreases depth + 1 - level,
        {
            nodes.push(HashMap::new());
            level += 1;
        }
        let tree = SparseMerkleTree { depth, nodes, leaves: HashMap::new(), defaults };
        proof {
            assert(tree@ =~= Map::<u64, u64>::empty());
            assert forall|l: int| 0 <= l <= depth implies level_matches(
                (#[trigger] tree.nodes@[l])@,
                tree@,
                l,
            ) by {
                assert forall|index: u64| #[trigger]
                    node_spec(tree@, l as nat, index as nat) == default_spec(l as nat) by {
                    lemma_empty_node(l as nat, index as nat);
                }
            }
        }
        tree
    }

    /// The tree of the given depth that the updates in `items` leave, applied
    /// in order. The depth must be below 64 and every identifier below two to
    /// the depth.
    #[verifier::rlimit(50)]
    pub fn from_items(items: &[(u64, u64)], depth: usize) -> (tree: Self)
        requires
            depth < 64,
            forall|i: int| 0 <= i < items@.len() ==> ((#[trigger] items@[i]).0 as nat) < pow2(
                depth as nat,
            ),
        ensures
            tree.wf(),
            tree.spec_depth() == depth,
            tree@ == apply_items(Map::empty(), items@),
    {
        let mut tree = Self::new(depth);
        let mut i: usize = 0;
        while i < items.len()
            invariant
                i <= items@.len(),
                tree.wf(),
                tree.spec_depth() == depth,
                tree@ == apply_items(Map::empty(), items@.subrange(0, i as int)),
                forall|i: int|
                    0 <= i < items@.len() ==> ((#[trigger] items@[i]).0 as nat) < pow2(depth as nat),
            decreases items@.len() - i,
        {
            let (item_id, quantity) = items[i];
            tree.update(item_id, quantity);
            i += 1;
            proof {
                let prefix = items@.subrange(0, i as int);
                assert(prefix.drop_last() =~= items@.subrange(0, i - 1));
                assert(prefix.last() == items@[i - 1]);
            }
        }
        proof {
            assert(items@.subrange(0, i as int) =~= items@);
        }
        tree
    }

    /// The quantity of an item, or zero where the tree holds none of it.
    pub fn get(&self, item_id: u64) -> (quantity: u64)
        requires
            self.wf(),
        ensures
            quantity == self.quantity_spec(item_id),
    {
        match self.leaves.get(&item_id) {
            Some(q) => *q,
            None => 0,
        }
    }

    /// Whether an identifier lies within the capacity of the tree: below two
    /// to the depth.
    pub fn in_capacity(&self, item_id: u64) -> (b: bool)
        requires
            self.wf(),
        ensures
            b == ((item_id as nat) < pow2(self.spec_depth())),
    {
        proof {
            lemma_u64_pow2_no_overflow(self.depth as nat);
            lemma_u64_shl_is_mul(1, self.depth as u64);
        }
        item_id < (1u64 << (self.depth as u64))
    }

    /// Writes the quantity of an item, which must lie within the capacity,
    /// and returns the new root. Quantity zero takes the item out of the
    /// tree: its slot is then an empty slot again.
    #[verifier::rlimit(50)]
    pub fn update(&mut self, item_id: u64, quantity: u64) -> (root: FieldElement)
        requires
            old(self).wf(),
            (item_id as nat) < pow2(old(self).spec_depth()),
        ensures
            final(self).wf(),
            final(self).spec_depth() == old(self).spec_depth(),
            final(self)@ == set_quantity(old(self)@, item_id, quantity),
            root@ == root_spec(final(self)@, final(self).spec_depth()),
    {
        let ghost older = self@;
        let ghost newer = self@.insert(item_id, quantity);
        if quantity == 0 {
            self.leaves.remove(&item_id);
        } else {
            self.leaves.insert(item_id, quantity);
        }
        let leaf_hash = hash_slot_leaf(item_id, quantity);
        let mut level_zero = HashMap::new();
        std::mem::swap(&mut level_zero, &mut self.nodes[0]);
        level_zero.insert(item_id, leaf_hash);
        self.nodes[0] = level_zero;
        proof {
            assert(self@ =~= set_quantity(older, item_id, quantity));
            assert(same_quantities(self@, newer));
            assert(self.nodes@[0]@ == old(self).nodes@[0]@.insert(item_id, leaf_hash));
            assert(level_matches(old(self).nodes@[0]@, older, 0));
            lemma_level_after_write(
                old(self).nodes@[0]@,
                older,
                item_id,
                quantity,
                0,
                item_id,
                leaf_hash,
            );
            assert forall|l: int| 0 < l <= self.depth implies level_matches(
                (#[trigger] self.nodes@[l])@,
                older,
                l,
            ) by {
                assert(self.nodes@[l] == old(self).nodes@[l]);
            }
        }
        self.recompute_path(item_id, Ghost(older), Ghost(quantity))
    }

    /// Writes the quantity of an item and returns the new root, or returns
    /// nothing and leaves the tree as it is where the identifier lies beyond
    /// the capacity.
    pub fn try_update(&mut self, item_id: u64, quantity: u64) -> (root: Option<FieldElement>)
        requires
            old(self).wf(),
        ensures
            final(self).wf(),
            final(self).spec_depth() == old(self).spec_depth(),
            root is Some <==> (item_id as nat) < pow2(old(self).spec_depth()),
            root is Some ==> final(self)@ == set_quantity(old(self)@, item_id, quantity) && root->0@
                == root_spec(final(self)@, final(self).spec_depth()),
            root is None ==> final(self)@ == old(self)@,
    {
        if self.in_capacity(item_id) {
            Some(self.update(item_id, quantity))
        } else {
            None
        }
    }

    /// Hashes the way from a leaf that was just written up to the root.
    #[verifier::rlimit(50)]
    fn recompute_path(
        &mut self,
        item_id: u64,
        Ghost(older): Ghost<Map<u64, u64>>,
        Ghost(quantity): Ghost<u64>,
    ) -> (root: FieldElement)
        requires
            old(self).shaped(older, older.insert(item_id, quantity), 0),
            same_quantities(old(self)@, older.insert(item_id, quantity)),
            (item_id as nat) < pow2(old(self).depth as nat),
            forall|id: u64| #[trigger]
                old(self).leaves@.contains_key(id) ==> old(self).leaves@[id] != 0 && (id as nat)
                    < pow2(old(self).depth as nat),
        ensures
            final(self).wf(),
            final(self).depth == old(self).depth,
            final(self)@ == old(self)@,
            root@ == root_spec(final(self)@, final(self).depth as nat),
    {
        let ghost newer = older.insert(item_id, quantity);
        let mut current_index = item_id;
        let mut current_hash = lookup(&self.nodes, &self.defaults, 0, item_id);
        proof {
            lemma_stored_is_node(self.nodes@, self.defaults@, newer, 0, item_id);
        }
        let mut level: usize = 0;
        while level < self.depth
            invariant
                level <= self.depth,
                self.depth == old(self).depth,
                self.shaped(older, newer, level as int),
                newer == older.insert(item_id, quantity),
                self.nodes@[0] == old(self).nodes@[0],
                self.leaves == old(self).leaves,
                current_index as nat == path_index(item_id as nat, level as nat),
                current_hash@ == node_spec(newer, level as nat, current_index as nat),
            decreases self.depth - level,
        {
            proof {
                lemma_index_bits(current_index);
            }
            let sibling_index = current_index ^ 1;
            let sibling_hash = lookup(&self.nodes, &self.defaults, level, sibling_index);
            proof {
                lemma_stored_is_node(
                    self.nodes@,
                    self.defaults@,
                    newer,
                    level as int,
                    sibling_index,
                );
                lemma_parent_hash(newer, level as nat, current_index as nat);
            }
            let parent_index = current_index >> 1;
            let parent_hash = if current_index & 1 == 0 {
                anemoi_hash_two(current_hash, sibling_hash)
            } else {
                anemoi_hash_two(sibling_hash, current_hash)
            };
            let ghost before = self.nodes@;
            let mut above = HashMap::new();
            std::mem::swap(&mut above, &mut self.nodes[level + 1]);
            above.insert(parent_index, parent_hash);
            self.nodes[level + 1] = above;
            proof {
                let up = (level + 1) as int;
                assert(self.nodes@[up]@ == before[up]@.insert(parent_index, parent_hash));
                lemma_level_after_write(
                    before[up]@,
                    older,
                    item_id,
                    quantity,
                    up,
                    parent_index,
                    parent_hash,
                );
                assert forall|l: int| 0 <= l <= up implies level_matches(
                    (#[trigger] self.nodes@[l])@,
                    newer,
                    l,
                ) by {
                    if l < up {
                        assert(self.nodes@[l] == before[l]);
                    }
                }
                assert forall|l: int| up < l <= self.depth implies level_matches(
                    (#[trigger] self.nodes@[l])@,
                    older,
                    l,
                ) by {
                    assert(self.nodes@[l] == before[l]);
                }
            }
            current_index = parent_index;
            current_hash = parent_hash;
            level += 1;
        }
        proof {
            lemma_path_reaches_root(item_id as nat, self.depth as nat, self.depth as nat);
            assert(pow2(0) == 1) by {
                vstd::arithmetic::power2::lemma2_to64();
            }
            assert(self@ =~= old(self)@);
            assert(same_quantities(newer, self@));
            lemma_same_nodes(newer, self@, self.depth as nat, 0);
            assert forall|l: int| 0 <= l <= self.depth implies level_matches(
                (#[trigger] self.nodes@[l])@,
                self@,
                l,
            ) by {
                lemma_level_same_quantities(self.nodes@[l]@, newer, self@, l);
            }
        }
        current_hash
    }

    /// The current root.
    pub fn root(&self) -> (root: FieldElement)
        requires
            self.wf(),
        ensures
            root@ == root_spec(self@, self.spec_depth()),
    {
        let root = lookup(&self.nodes, &self.defaults, self.depth, 0);
        proof {
            lemma_stored_is_node(self.nodes@, self.defaults@, self@, self.depth as int, 0);
        }
        root
    }

    /// The membership proof for an item, which must lie within the capacity.
    #[verifier::rlimit(50)]
    pub fn get_proof(&self, item_id: u64) -> (mp: MerkleProof)
        requires
            self.wf(),
            (item_id as nat) < pow2(self.spec_depth()),
        ensures
            mp.spec_path() == proof_path_spec(self@, item_id as nat, self.spec_depth()),
            mp.spec_indices() == proof_indices_spec(item_id as nat, self.spec_depth()),
    {
        let mut path: Vec<FieldElement> = Vec::new();
        let mut indices: Vec<bool> = Vec::new();
        let mut current_index = item_id;
        let mut level: usize = 0;
        while level < self.depth
            invariant
                level <= self.depth,
                self.wf(),
                path@.len() == level,
                indices@.len() == level,
                current_index as nat == path_index(item_id as nat, level as nat),
                forall|l: int|
                    0 <= l < level ==> (#[trigger] path@[l])@ == node_spec(
                        self@,
                        l as nat,
                        sibling(path_index(item_id as nat, l as nat)),
                    ),
                forall|l: int|
                    0 <= l < level ==> #[trigger] indices@[l] == (path_index(
                        item_id as nat,
                        l as nat,
                    ) % 2 == 1),
            decreases self.depth - level,
        {
            proof {
                lemma_index_bits(current_index);
            }
            let sibling_index = current_index ^ 1;
            let sibling_hash = lookup(&self.nodes, &self.defaults, level, sibling_index);
            proof {
                lemma_stored_is_node(
                    self.nodes@,
                    self.defaults@,
                    self@,
                    level as int,
                    sibling_index,
                );
            }
            path.push(sibling_hash);
            indices.push((current_index & 1) == 1);
            current_index = current_index >> 1;
            level += 1;
        }
        proof {
            assert(values(path@) =~= proof_path_spec(
                self@,
                item_id as nat,
                self.spec_depth(),
            ));
            assert(indices@ =~= proof_indices_spec(item_id as nat, self.spec_depth()));
        }
        MerkleProof::new(path, indices)
    }

    /// Whether a proof leads from the leaf of `item_id` and `quantity` to the
    /// root of this tree.
    pub fn verify_proof(&self, item_id: u64, quantity: u64, mp: &MerkleProof) -> (ok: bool)
        requires
            self.wf(),
        ensures
            ok == (mp.root_from_leaf_spec(leaf_hash_spec(item_id, quantity)) == root_spec(
                self@,
                self.spec_depth(),
            )),
    {
        let computed_root = mp.compute_root(item_id, quantity);
        let root = self.root();
        computed_root.equals(&root)
    }

    /// The depth of the tree.
    pub fn depth(&self) -> (d: usize)
        ensures
            d == self.spec_depth(),
    {
        self.depth
    }

    /// The hash of an empty subtree of height `level`, which must not exceed
    /// the depth.
    pub fn default_at_level(&self, level: usize) -> (h: FieldElement)
        requires
            self.wf(),
            level <= self.spec_depth(),
        ensures
            h@ == default_spec(level as nat),
    {
        self.defaults[level]
    }

    /// The items that the tree holds, each with its quantity, in no
    /// particular order.
    #[verifier::rlimit(50)]
    pub fn items(&self) -> (out: Vec<(u64, u64)>)
        requires
            self.wf(),
        ensures
            out@.len() == self@.len(),
            out@.no_duplicates(),
            forall|i: int|
                0 <= i < out@.len() ==> self@.contains_pair((#[trigger] out@[i]).0, out@[i].1),
            forall|id: u64| #[trigger] self@.contains_key(id) ==> out@.contains((id, self@[id])),
    {
        let mut out: Vec<(u64, u64)> = Vec::new();
        let ghost all = self.leaves.iter().remaining();
        for pair in it: self.leaves.iter()
            invariant
                it.seq() == all,
                out@.len() == it.index(),
                forall|j: int|
                    0 <= j < it.index() ==> out@[j] == (*it.seq()[j].0, *it.seq()[j].1),
        {
            out.push((*pair.0, *pair.1));
        }
        proof {
            assert forall|id: u64| #[trigger] self@.contains_key(id) implies out@.contains(
                (id, self@[id]),
            ) by {
                let e = (&id, &self.leaves@[id]);
                assert(self.leaves@.contains_key(id));
                assert(all.contains(e));
                let j = choose|j: int| 0 <= j < all.len() && all[j] == e;
                assert(out@[j] == (id, self.leaves@[id]));
            }
        }
        out
    }

    /// The number of items that the tree holds.
    pub fn len(&self) -> (n: usize)
        requires
            self.wf(),
        ensures
            n == self@.len(),
            self@.dom().finite(),
    {
        self.leaves.len()
    }

    /// Whether the tree holds no item.
    pub fn is_empty(&self) -> (b: bool)
        requires
            self.wf(),
        ensures
            b == (self@ == Map::<u64, u64>::empty()),
    {
        proof {
            if self.leaves@.len() == 0 {
                assert(self.leaves@ =~= Map::<u64, u64>::empty());
            }
        }
        self.leaves.is_empty()
    }
}

} // verus!
