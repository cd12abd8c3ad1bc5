//! The checks of membership proofs as constraints.

use super::merkle_proof::{climb_spec, slot_leaf_spec, MerkleProof};
use crate::anemoi::gadgets::{anemoi_hash_two_var, sat_step};
use crate::anemoi::native::hash2_spec;
use crate::field::values;
use crate::r1cs::{
    all_bools_valid_in, all_valid_in, bool_values, lemma_all_bools_valid_in_extension,
    lemma_all_valid_in_extension, lemma_bool_valid_in_extension, lemma_grows_transitive,
    lemma_valid_in_extension, var_values, Boolean, ConstraintSystem, FpVar,
};
use vstd::prelude::*;

verus! {

broadcast use {
    lemma_valid_in_extension,
    lemma_bool_valid_in_extension,
    lemma_all_valid_in_extension,
    lemma_all_bools_valid_in_extension,
    lemma_grows_transitive,
};

/// A membership proof as variables of a circuit.
#[derive(Debug)]
pub struct MerkleProofVar {
    path: Vec<FpVar>,
    indices: Vec<Boolean>,
}

impl MerkleProofVar {
    /// A proof has one direction for each sibling.
    #[verifier::type_invariant]
    pub closed spec fn same_length(self) -> bool {
        self.path@.len() == self.indices@.len()
    }

    /// The values of the sibling hashes, from the leaf level upwards.
    pub closed spec fn spec_path(self) -> Seq<nat> {
        var_values(self.path@)
    }

    /// The values of the directions, from the leaf level upwards.
    pub closed spec fn spec_indices(self) -> Seq<bool> {
        bool_values(self.indices@)
    }

    /// The number of levels that the proof climbs.
    pub open spec fn spec_depth(self) -> nat {
        self.spec_path().len()
    }

    /// Whether every variable of the proof belongs to a system.
    pub closed spec fn valid_in(self, cs: &ConstraintSystem) -> bool {
        all_valid_in(self.path@, cs) && all_bools_valid_in(self.indices@, cs)
    }

    /// The root that the proof arrives at from a leaf hash.
    pub open spec fn root_from_leaf_spec(self, leaf: nat) -> nat {
        climb_spec(leaf, self.spec_path(), self.spec_indices(), self.spec_depth())
    }

    /// A proof that belongs to a system belongs to every system that came
    /// from it.
    pub broadcast proof fn lemma_valid_in_extension(
        self,
        older: &ConstraintSystem,
        newer: &ConstraintSystem,
    )
        requires
            #[trigger] self.valid_in(older),
            #[trigger] newer.extends(older),
        ensures
            self.valid_in(newer),
    {
        lemma_all_valid_in_extension(self.path@, older, newer);
        lemma_all_bools_valid_in_extension(self.indices@, older, newer);
    }

    /// Allocates a proof as witnesses: one for each sibling, and one, bound
    /// to zero or one, for each direction.
    #[verifier::rlimit(50)]
    pub fn new_witness(cs: &mut ConstraintSystem, mp: &MerkleProof) -> (r: Self)
        requires
            old(cs).wf(),
        ensures
            final(cs).wf(),
            final(cs).grows_from(old(cs)),
            final(cs).spec_satisfied() == old(cs).spec_satisfied(),
            r.valid_in(final(cs)),
            r.spec_path() == mp.spec_path(),
            r.spec_indices() == mp.spec_indices(),
    {
        let siblings = mp.path();
        let directions = mp.indices();
        let mut path: Vec<FpVar> = Vec::new();
        let mut i: usize = 0;
        while i < siblings.len()
            invariant
                i <= siblings@.len(),
                cs.wf(),
                cs.grows_from(old(cs)),
                cs.spec_satisfied() == old(cs).spec_satisfied(),
                path@.len() == i,
                all_valid_in(path@, cs),
                forall|j: int| 0 <= j < i ==> (#[trigger] path@[j])@ == siblings@[j]@,
            decreases siblings@.len() - i,
        {
            let v = cs.new_witness(siblings[i]);
            path.push(v);
            i += 1;
        }
        let mut indices: Vec<Boolean> = Vec::new();
        let mut k: usize = 0;
        while k < directions.len()
            invariant
                k <= directions@.len(),
                cs.wf(),
                cs.grows_from(old(cs)),
                cs.spec_satisfied() == old(cs).spec_satisfied(),
                indices@.len() == k,
                all_valid_in(path@, cs),
                all_bools_valid_in(indices@, cs),
                forall|j: int| 0 <= j < k ==> (#[trigger] indices@[j])@ == directions@[j],
            decreases directions@.len() - k,
        {
            let b = Boolean::new_witness(cs, directions[k]);
            indices.push(b);
            k += 1;
        }
        proof {
            assert(var_values(path@) =~= values(siblings@));
            assert(bool_values(indices@) =~= directions@);
        }
        MerkleProofVar { path, indices }
    }

    /// The sibling variables, from the leaf level upwards.
    pub fn path(&self) -> (p: &[FpVar])
        ensures
            var_values(p@) == self.spec_path(),
            forall|cs: &ConstraintSystem| self.valid_in(cs) ==> #[trigger] all_valid_in(p@, cs),
    {
        self.path.as_slice()
    }

    /// The direction variables, from the leaf level upwards.
    pub fn indices(&self) -> (d: &[Boolean])
        ensures
            bool_values(d@) == self.spec_indices(),
            d@.len() == self.spec_depth(),
            forall|cs: &ConstraintSystem|
                self.valid_in(cs) ==> #[trigger] all_bools_valid_in(d@, cs),
    {
        proof {
            use_type_invariant(self);
        }
        self.indices.as_slice()
    }

    /// The number of levels that the proof climbs.
    pub fn depth(&self) -> (d: usize)
        ensures
            d == self.spec_depth(),
    {
        self.path.len()
    }
}

/// Hashes two nodes into their parent.
pub fn hash_two(cs: &mut ConstraintSystem, left: &FpVar, right: &FpVar) -> (h: FpVar)
    requires
        old(cs).wf(),
        left.valid_in(old(cs)),
        right.valid_in(old(cs)),
    ensures
        final(cs).wf(),
        final(cs).grows_from(old(cs)),
        sat_step(final(cs), old(cs), true),
        h.valid_in(final(cs)),
        h@ == hash2_spec(left@, right@),
{
    anemoi_hash_two_var(cs, left, right)
}

/// Hashes an item and its quantity into a leaf.
pub fn hash_leaf(cs: &mut ConstraintSystem, item_id: &FpVar, quantity: &FpVar) -> (h: FpVar)
    requires
        old(cs).wf(),
        item_id.valid_in(old(cs)),
        quantity.valid_in(old(cs)),
    ensures
        final(cs).wf(),
        final(cs).grows_from(old(cs)),
        sat_step(final(cs), old(cs), true),
        h.valid_in(final(cs)),
        h@ == hash2_spec(item_id@, quantity@),
{
    hash_two(cs, item_id, quantity)
}

/// The leaf of the slot that holds `quantity` of `item_id`: the hash of the
/// item and the quantity, or, where the quantity is zero, the hash of two
/// zeros, which is the leaf of an empty slot.
pub fn slot_leaf(cs: &mut ConstraintSystem, item_id: &FpVar, quantity: &FpVar) -> (h: FpVar)
    requires
        old(cs).wf(),
        item_id.valid_in(old(cs)),
        quantity.valid_in(old(cs)),
    ensures
        final(cs).wf(),
        final(cs).grows_from(old(cs)),
        sat_step(final(cs), old(cs), true),
        h.valid_in(final(cs)),
        h@ == slot_leaf_spec(item_id@, quantity@),
{
    let zero = FpVar::zero();
    let is_empty = quantity.is_eq(&zero, cs);
    let default_leaf_hash = hash_leaf(cs, &zero, &zero);
    let regular_hash = hash_leaf(cs, item_id, quantity);
    is_empty.select(&default_leaf_hash, &regular_hash, cs)
}

/// Climbs from a leaf hash along a proof and returns the root that the climb
/// arrives at.
#[verifier::rlimit(50)]
pub fn compute_root_from_path(
    cs: &mut ConstraintSystem,
    leaf_hash: &FpVar,
    mp: &MerkleProofVar,
) -> (root: FpVar)
    requires
        old(cs).wf(),
        leaf_hash.valid_in(old(cs)),
        mp.valid_in(old(cs)),
    ensures
        final(cs).wf(),
        final(cs).grows_from(old(cs)),
        sat_step(final(cs), old(cs), true),
        root.valid_in(final(cs)),
        root@ == mp.root_from_leaf_spec(leaf_hash@),
{
    let path = mp.path();
    let indices = mp.indices();
    let mut current = leaf_hash.clone();
    let mut i: usize = 0;
    assert(all_valid_in(path@, cs));
    assert(all_bools_valid_in(indices@, cs));
    while i < path.len()
        invariant
            i <= path@.len(),
            path@.len() == indices@.len(),
            var_values(path@) == mp.spec_path(),
            bool_values(indices@) == mp.spec_indices(),
            cs.wf(),
            cs.grows_from(old(cs)),
            sat_step(cs, old(cs), true),
            all_valid_in(path@, old(cs)),
            all_bools_valid_in(indices@, old(cs)),
            current.valid_in(cs),
            current@ == climb_spec(leaf_hash@, mp.spec_path(), mp.spec_indices(), i as nat),
        decreases path@.len() - i,
    {
        let sibling = &path[i];
        let is_right = &indices[i];
        proof {
            assert(path@[i as int].valid_in(old(cs)));
            assert(indices@[i as int].valid_in(old(cs)));
            assert(var_values(path@)[i as int] == path@[i as int]@);
            assert(bool_values(indices@)[i as int] == indices@[i as int]@);
        }
        let left = is_right.select(sibling, &current, cs);
        let right = is_right.select(&current, sibling, cs);
        current = hash_two(cs, &left, &right);
        i += 1;
    }
    current
}

/// Adds the constraints that the leaf of the slot that holds `quantity` of
/// `item_id` leads, along the proof, to `expected_root`. With quantity zero
/// that is the leaf of an empty slot, as in the tree.
#[verifier::rlimit(50)]
pub fn verify_membership(
    cs: &mut ConstraintSystem,
    expected_root: &FpVar,
    item_id: &FpVar,
    quantity: &FpVar,
    mp: &MerkleProofVar,
)
    requires
        old(cs).wf(),
        expected_root.valid_in(old(cs)),
        item_id.valid_in(old(cs)),
        quantity.valid_in(old(cs)),
        mp.valid_in(old(cs)),
    ensures
        final(cs).wf(),
        final(cs).grows_from(old(cs)),
        sat_step(
            final(cs),
            old(cs),
            mp.root_from_leaf_spec(slot_leaf_spec(item_id@, quantity@)) == expected_root@,
        ),
{
    let leaf_hash = slot_leaf(cs, item_id, quantity);
    proof {
        mp.lemma_valid_in_extension(old(cs), cs);
    }
    let computed_root = compute_root_from_path(cs, &leaf_hash, mp);
    computed_root.enforce_equal(expected_root, cs);
}

/// Adds the constraints that the leaf before the update leads, along the
/// proof, to `old_root`, and returns the root that the leaf after the update
/// leads to along the same proof. Either leaf is that of an empty slot where
/// its quantity is zero: an insertion starts from an empty slot, and a slot
/// set back to zero is an empty slot again.
#[verifier::rlimit(50)]
pub fn verify_and_update(
    cs: &mut ConstraintSystem,
    old_root: &FpVar,
    item_id: &FpVar,
    old_quantity: &FpVar,
    new_quantity: &FpVar,
    mp: &MerkleProofVar,
) -> (new_root: FpVar)
    requires
        old(cs).wf(),
        old_root.valid_in(old(cs)),
        item_id.valid_in(old(cs)),
        old_quantity.valid_in(old(cs)),
        new_quantity.valid_in(old(cs)),
        mp.valid_in(old(cs)),
    ensures
        final(cs).wf(),
        final(cs).grows_from(old(cs)),
        sat_step(
            final(cs),
            old(cs),
            mp.root_from_leaf_spec(slot_leaf_spec(item_id@, old_quantity@)) == old_root@,
        ),
        new_root.valid_in(final(cs)),
        new_root@ == mp.root_from_leaf_spec(slot_leaf_spec(item_id@, new_quantity@)),
{
    let old_leaf_hash = slot_leaf(cs, item_id, old_quantity);
    proof {
        mp.lemma_valid_in_extension(old(cs), cs);
    }
    let computed_old_root = compute_root_from_path(cs, &old_leaf_hash, mp);
    computed_old_root.enforce_equal(old_root, cs);
    let new_leaf_hash = slot_leaf(cs, item_id, new_quantity);
    proof {
        mp.lemma_valid_in_extension(old(cs), cs);
    }
    compute_root_from_path(cs, &new_leaf_hash, mp)
}

/// Adds the constraints that the slot of `item_id` is empty in the tree with
/// root `expected_root`: that the leaf of an empty slot leads there.
pub fn verify_non_membership(
    cs: &mut ConstraintSystem,
    expected_root: &FpVar,
    item_id: &FpVar,
    mp: &MerkleProofVar,
)
    requires
        old(cs).wf(),
        expected_root.valid_in(old(cs)),
        item_id.valid_in(old(cs)),
        mp.valid_in(old(cs)),
    ensures
        final(cs).wf(),
        final(cs).grows_from(old(cs)),
        sat_step(
            final(cs),
            old(cs),
            mp.root_from_leaf_spec(hash2_spec(0, 0)) == expected_root@,
        ),
{
    let zero = FpVar::zero();
    verify_membership(cs, expected_root, item_id, &zero, mp)
}

} // verus!
