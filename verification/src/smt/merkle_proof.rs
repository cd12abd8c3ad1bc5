//! Membership proofs of the sparse Merkle tree.

use crate::anemoi::native::{anemoi_hash_two, hash2_spec};
use crate::field::{values, FieldElement};
use vstd::prelude::*;

verus! {

/// The hash that a climb of `n` levels arrives at. It starts from `leaf`; at
/// each level it hashes the running node with that level's sibling, the
/// sibling going first where the running node is a right child.
pub open spec fn climb_spec(leaf: nat, path: Seq<nat>, indices: Seq<bool>, n: nat) -> nat
    decreases n,
{
    if n == 0 {
        leaf
    } else {
        let below = climb_spec(leaf, path, indices, (n - 1) as nat);
        if indices[n - 1] {
            hash2_spec(path[n - 1], below)
        } else {
            hash2_spec(below, path[n - 1])
        }
    }
}

/// The hash of the leaf of a slot: of two zeros where the slot holds
/// nothing, of the item and its quantity where it holds something. A slot
/// that was set back to zero is an empty slot.
pub open spec fn slot_leaf_spec(item_id: nat, quantity: nat) -> nat {
    if quantity == 0 {
        hash2_spec(0, 0)
    } else {
        hash2_spec(item_id, quantity)
    }
}

/// The hash of the leaf that holds `quantity` of item `item_id`.
pub open spec fn leaf_hash_spec(item_id: u64, quantity: u64) -> nat {
    slot_leaf_spec(item_id as nat, quantity as nat)
}

/// Hashes the leaf of a slot: two zeros where the quantity is zero, the item
/// and the quantity where it is not.
pub fn hash_slot_leaf(item_id: u64, quantity: u64) -> (h: FieldElement)
    ensures
        h@ == leaf_hash_spec(item_id, quantity),
{
    if quantity == 0 {
        anemoi_hash_two(FieldElement::zero(), FieldElement::zero())
    } else {
        anemoi_hash_two(FieldElement::from_u64(item_id), FieldElement::from_u64(quantity))
    }
}

/// A membership proof: the sibling of each node on the way from a leaf to the
/// root, and for each level whether the node on the way is a right child.
#[derive(Debug)]
pub struct MerkleProof {
    path: Vec<FieldElement>,
    indices: Vec<bool>,
}

impl Clone for MerkleProof {
    fn clone(&self) -> (mp: Self)
        ensures
            mp.spec_path() == self.spec_path(),
            mp.spec_indices() == self.spec_indices(),
    {
        proof {
            use_type_invariant(self);
        }
        let path = self.path.clone();
        let indices = self.indices.clone();
        assert(values(path@) =~= values(self.path@));
        assert(indices@ =~= self.indices@);
        MerkleProof { path, indices }
    }
}

impl MerkleProof {
    /// A proof has one direction for each sibling.
    #[verifier::type_invariant]
    pub closed spec fn same_length(self) -> bool {
        self.path@.len() == self.indices@.len()
    }

    /// The sibling hashes, from the leaf level upwards.
    pub closed spec fn spec_path(self) -> Seq<nat> {
        values(self.path@)
    }

    /// The directions, from the leaf level upwards.
    pub closed spec fn spec_indices(self) -> Seq<bool> {
        self.indices@
    }

    /// The number of levels that the proof climbs.
    pub open spec fn spec_depth(self) -> nat {
        self.spec_path().len()
    }

    /// The root that the proof arrives at from a leaf hash.
    pub open spec fn root_from_leaf_spec(self, leaf: nat) -> nat {
        climb_spec(leaf, self.spec_path(), self.spec_indices(), self.spec_depth())
    }

    /// A proof from its siblings and directions, which must be equally many.
    pub fn new(path: Vec<FieldElement>, indices: Vec<bool>) -> (mp: Self)
        requires
            path@.len() == indices@.len(),
        ensures
            mp.spec_path() == values(path@),
            mp.spec_indices() == indices@,
    {
        MerkleProof { path, indices }
    }

    /// A proof of `depth` levels whose siblings are all zero and whose node is
    /// a left child at each level.
    pub fn empty(depth: usize) -> (mp: Self)
        ensures
            mp.spec_depth() == depth,
            mp.spec_indices().len() == depth,
            forall|i: int| 0 <= i < depth ==> mp.spec_path()[i] == 0 && !mp.spec_indices()[i],
    {
        let mut path: Vec<FieldElement> = Vec::new();
        let mut indices: Vec<bool> = Vec::new();
        let mut i: usize = 0;
        while i < depth
            invariant
                i <= depth,
                path@.len() == i,
                indices@.len() == i,
                forall|j: int| 0 <= j < i ==> (#[trigger] path@[j])@ == 0 && !indices@[j],
            decreases depth - i,
        {
            path.push(FieldElement::zero());
            indices.push(false);
            i += 1;
        }
        MerkleProof { path, indices }
    }

    /// The sibling hashes, from the leaf level upwards.
    pub fn path(&self) -> (p: &[FieldElement])
        ensures
            values(p@) == self.spec_path(),
    {
        self.path.as_slice()
    }

    /// The directions, from the leaf level upwards.
    pub fn indices(&self) -> (d: &[bool])
        ensures
            d@ == self.spec_indices(),
            d@.len() == self.spec_depth(),
    {
        proof {
            use_type_invariant(self);
        }
        self.indices.as_slice()
    }

    /// The number of levels that the proof climbs.
    pub fn depth(&self) -> (d: usize)
        ensures
            d == self.spec_depth(),
    {
        self.path.len()
    }

    /// The root that the proof arrives at from the leaf of the slot that
    /// holds `quantity` of item `item_id`; for quantity zero that is the leaf
    /// of an empty slot.
    pub fn compute_root(&self, item_id: u64, quantity: u64) -> (root: FieldElement)
        ensures
            root@ == self.root_from_leaf_spec(leaf_hash_spec(item_id, quantity)),
    {
        let leaf = hash_slot_leaf(item_id, quantity);
        self.compute_root_from_leaf(leaf)
    }

    /// The root that the proof arrives at from a leaf hash.
    pub fn compute_root_from_leaf(&self, leaf_hash: FieldElement) -> (root: FieldElement)
        ensures
            root@ == self.root_from_leaf_spec(leaf_hash@),
    {
        proof {
            use_type_invariant(self);
        }
        let mut current = leaf_hash;
        let mut i: usize = 0;
        while i < self.path.len()
            invariant
                i <= self.path@.len(),
                self.path@.len() == self.indices@.len(),
                current@ == climb_spec(
                    leaf_hash@,
                    self.spec_path(),
                    self.spec_indices(),
                    i as nat,
                ),
            decreases self.path@.len() - i,
        {
            current =
            if self.indices[i] {
                anemoi_hash_two(self.path[i], current)
            } else {
                anemoi_hash_two(current, self.path[i])
            };
            i += 1;
        }
        current
    }
}

} // verus!
