//! The commitment to an inventory: the hash of the root of its tree, its
//! volume and a blinding factor.

use crate::anemoi::gadgets::{anemoi_hash_many_var, sat_step};
use crate::anemoi::native::{anemoi_hash_many, hash_many_spec};
use crate::field::{values, FieldElement};
use crate::r1cs::{
    all_valid_in, lemma_all_valid_in_extension, lemma_grows_transitive, lemma_valid_in_extension,
    var_values, ConstraintSystem, FpVar,
};
use vstd::prelude::*;

verus! {

broadcast use {lemma_valid_in_extension, lemma_all_valid_in_extension, lemma_grows_transitive};

/// The commitment to a root, a volume and a blinding factor.
pub open spec fn commitment_spec(root: nat, volume: nat, blinding: nat) -> nat {
    hash_many_spec(seq![root, volume, blinding])
}

/// Commits to the root of an inventory, its volume and a blinding factor.
pub fn create_smt_commitment(
    inventory_root: FieldElement,
    current_volume: u64,
    blinding: FieldElement,
) -> (c: FieldElement)
    ensures
        c@ == commitment_spec(inventory_root@, current_volume as nat, blinding@),
{
    let inputs = [inventory_root, FieldElement::from_u64(current_volume), blinding];
    assert(values(inputs@) =~= seq![inventory_root@, current_volume as nat, blinding@]);
    anemoi_hash_many(inputs.as_slice())
}

/// One snapshot of an inventory: the root of its tree, its volume and the
/// blinding factor of its commitment.
#[derive(Clone, Copy, Debug)]
pub struct InventoryState {
    pub inventory_root: FieldElement,
    pub current_volume: u64,
    pub blinding: FieldElement,
}

impl InventoryState {
    /// The commitment to this snapshot.
    pub open spec fn commitment_spec(self) -> nat {
        commitment_spec(self.inventory_root@, self.current_volume as nat, self.blinding@)
    }

    /// A snapshot from its parts.
    pub fn new(inventory_root: FieldElement, current_volume: u64, blinding: FieldElement) -> (s:
        Self)
        ensures
            s.inventory_root == inventory_root,
            s.current_volume == current_volume,
            s.blinding == blinding,
    {
        InventoryState { inventory_root, current_volume, blinding }
    }

    /// The snapshot of an empty inventory, whose volume is zero.
    pub fn empty(empty_root: FieldElement, blinding: FieldElement) -> (s: Self)
        ensures
            s.inventory_root == empty_root,
            s.current_volume == 0,
            s.blinding == blinding,
    {
        InventoryState { inventory_root: empty_root, current_volume: 0, blinding }
    }

    /// The commitment to this snapshot.
    pub fn commitment(&self) -> (c: FieldElement)
        ensures
            c@ == self.commitment_spec(),
    {
        create_smt_commitment(self.inventory_root, self.current_volume, self.blinding)
    }

    /// The snapshot after `amount` units of an item of volume `item_volume`
    /// each came in. The new volume must fit in 64 bits.
    pub fn after_deposit(
        &self,
        new_root: FieldElement,
        item_volume: u64,
        amount: u64,
        new_blinding: FieldElement,
    ) -> (s: Self)
        requires
            self.current_volume + item_volume * amount <= u64::MAX,
        ensures
            s.inventory_root == new_root,
            s.current_volume == self.current_volume + item_volume * amount,
            s.blinding == new_blinding,
    {
        assert(item_volume * amount <= u64::MAX) by (nonlinear_arith)
            requires
                self.current_volume + item_volume * amount <= u64::MAX,
        ;
        InventoryState {
            inventory_root: new_root,
            current_volume: self.current_volume + item_volume * amount,
            blinding: new_blinding,
        }
    }

    /// The snapshot after `amount` units of an item of volume `item_volume`
    /// each went out. The volume that goes must not exceed the volume that
    /// is there.
    pub fn after_withdraw(
        &self,
        new_root: FieldElement,
        item_volume: u64,
        amount: u64,
        new_blinding: FieldElement,
    ) -> (s: Self)
        requires
            item_volume * amount <= self.current_volume,
        ensures
            s.inventory_root == new_root,
            s.current_volume == self.current_volume - item_volume * amount,
            s.blinding == new_blinding,
    {
        let volume_delta = item_volume * amount;
        InventoryState {
            inventory_root: new_root,
            current_volume: self.current_volume - volume_delta,
            blinding: new_blinding,
        }
    }
}

/// Commits, in a circuit, to the root of an inventory, its volume and a
/// blinding factor.
pub fn create_smt_commitment_var(
    cs: &mut ConstraintSystem,
    inventory_root: &FpVar,
    current_volume: &FpVar,
    blinding: &FpVar,
) -> (c: FpVar)
    requires
        old(cs).wf(),
        inventory_root.valid_in(old(cs)),
        current_volume.valid_in(old(cs)),
        blinding.valid_in(old(cs)),
    ensures
        final(cs).wf(),
        final(cs).grows_from(old(cs)),
        sat_step(final(cs), old(cs), true),
        c.valid_in(final(cs)),
        c@ == commitment_spec(inventory_root@, current_volume@, blinding@),
{
    let inputs = [inventory_root.clone(), current_volume.clone(), blinding.clone()];
    proof {
        assert(var_values(inputs@) =~= seq![inventory_root@, current_volume@, blinding@]);
        assert(all_valid_in(inputs@, cs));
    }
    anemoi_hash_many_var(cs, inputs.as_slice())
}

/// One snapshot of an inventory as variables of a circuit.
#[derive(Clone, Debug)]
pub struct InventoryStateVar {
    pub inventory_root: FpVar,
    pub current_volume: FpVar,
    pub blinding: FpVar,
}

impl InventoryStateVar {
    /// Whether the three variables belong to a system.
    pub open spec fn valid_in(&self, cs: &ConstraintSystem) -> bool {
        &&& self.inventory_root.valid_in(cs)
        &&& self.current_volume.valid_in(cs)
        &&& self.blinding.valid_in(cs)
    }

    /// The commitment to this snapshot.
    pub open spec fn commitment_spec(&self) -> nat {
        commitment_spec(self.inventory_root@, self.current_volume@, self.blinding@)
    }

    /// A snapshot from its parts.
    pub fn new(inventory_root: FpVar, current_volume: FpVar, blinding: FpVar) -> (s: Self)
        ensures
            s.inventory_root == inventory_root,
            s.current_volume == current_volume,
            s.blinding == blinding,
    {
        InventoryStateVar { inventory_root, current_volume, blinding }
    }

    /// The commitment to this snapshot, computed in a circuit.
    pub fn commitment(&self, cs: &mut ConstraintSystem) -> (c: FpVar)
        requires
            old(cs).wf(),
            self.valid_in(old(cs)),
        ensures
            final(cs).wf(),
            final(cs).grows_from(old(cs)),
            sat_step(final(cs), old(cs), true),
            c.valid_in(final(cs)),
            c@ == self.commitment_spec(),
    {
        create_smt_commitment_var(cs, &self.inventory_root, &self.current_volume, &self.blinding)
    }
}

} // verus!
