//! The membership relation: an inventory, known by its commitment, holds an
//! item in a quantity that the prover knows.
//!
//! The one public input is the hash of the commitment, the item and the
//! quantity asked for. The constraints bind the quantity held to the tree
//! and the tree to the commitment. That the quantity held is no less than
//! the quantity asked for is checked where the circuit is built, not by the
//! constraints.

use crate::anemoi::gadgets::{anemoi_hash_many_var, sat_step};
use crate::anemoi::native::{anemoi_hash_many, hash_many_spec};
use crate::field::{values, FieldElement};
use crate::r1cs::{
    all_valid_in, lemma_all_valid_in_extension, lemma_extends_transitive, lemma_grows_transitive,
    lemma_valid_in_extension, var_values, ConstraintSystem, SynthesisError,
};
use crate::smt::gadgets::{verify_membership, MerkleProofVar};
use crate::smt::merkle_proof::{slot_leaf_spec, MerkleProof};
use crate::smt_commitment::{commitment_spec, create_smt_commitment, create_smt_commitment_var};
use vstd::prelude::*;

verus! {

broadcast use {
    lemma_valid_in_extension,
    lemma_all_valid_in_extension,
    lemma_grows_transitive,
    lemma_extends_transitive,
    MerkleProofVar::lemma_valid_in_extension,
};

/// The public input of the membership relation: the hash of the commitment,
/// the item and the quantity asked for.
pub open spec fn item_exists_hash_spec(commitment: nat, item_id: nat, min_quantity: nat) -> nat {
    hash_many_spec(seq![commitment, item_id, min_quantity])
}

/// Computes the public input of the membership relation.
pub fn compute_item_exists_hash(commitment: FieldElement, item_id: u64, min_quantity: u64) -> (h:
    FieldElement)
    ensures
        h@ == item_exists_hash_spec(commitment@, item_id as nat, min_quantity as nat),
{
    let inputs = [
        commitment,
        FieldElement::from_u64(item_id),
        FieldElement::from_u64(min_quantity),
    ];
    assert(values(inputs@) =~= seq![commitment@, item_id as nat, min_quantity as nat]);
    anemoi_hash_many(inputs.as_slice())
}

/// The circuit of the membership relation, as a prover fills it in.
#[derive(Debug)]
pub struct ItemExistsSMTCircuit {
    /// The public input.
    pub public_hash: Option<FieldElement>,
    /// The root of the tree.
    pub inventory_root: Option<FieldElement>,
    /// The volume of the inventory.
    pub current_volume: Option<u64>,
    /// The blinding factor of the commitment.
    pub blinding: Option<FieldElement>,
    /// The item.
    pub item_id: Option<u64>,
    /// The quantity that the inventory holds.
    pub actual_quantity: Option<u64>,
    /// The quantity asked for.
    pub min_quantity: Option<u64>,
    /// The membership proof of the item.
    pub proof: Option<MerkleProof>,
}

impl ItemExistsSMTCircuit {
    /// Whether every value but the proof is given.
    pub open spec fn complete(&self) -> bool {
        &&& self.public_hash is Some
        &&& self.inventory_root is Some
        &&& self.current_volume is Some
        &&& self.blinding is Some
        &&& self.item_id is Some
        &&& self.actual_quantity is Some
        &&& self.min_quantity is Some
    }

    /// The relation: the proof leads from the leaf of the slot that holds
    /// the quantity of the item to the root, and the public input is the hash of the
    /// commitment, the item and the quantity asked for.
    pub open spec fn holds(&self) -> bool {
        &&& self.proof->0.root_from_leaf_spec(
            slot_leaf_spec(self.item_id->0 as nat, self.actual_quantity->0 as nat),
        ) == self.inventory_root->0@
        &&& self.public_hash->0@ == item_exists_hash_spec(
            commitment_spec(
                self.inventory_root->0@,
                self.current_volume->0 as nat,
                self.blinding->0@,
            ),
            self.item_id->0 as nat,
            self.min_quantity->0 as nat,
        )
    }

    /// A circuit with no value given.
    pub fn empty() -> (c: Self)
        ensures
            c.public_hash is None,
            c.inventory_root is None,
            c.current_volume is None,
            c.blinding is None,
            c.item_id is None,
            c.actual_quantity is None,
            c.min_quantity is None,
            c.proof is None,
    {
        ItemExistsSMTCircuit {
            public_hash: None,
            inventory_root: None,
            current_volume: None,
            blinding: None,
            item_id: None,
            actual_quantity: None,
            min_quantity: None,
            proof: None,
        }
    }

    /// The circuit for an inventory and an item, with the public input
    /// computed from the commitment.
    pub fn new(
        inventory_root: FieldElement,
        current_volume: u64,
        blinding: FieldElement,
        item_id: u64,
        actual_quantity: u64,
        min_quantity: u64,
        mp: MerkleProof,
    ) -> (c: Self)
        ensures
            c.complete(),
            c.public_hash->0@ == item_exists_hash_spec(
                commitment_spec(inventory_root@, current_volume as nat, blinding@),
                item_id as nat,
                min_quantity as nat,
            ),
            c.inventory_root == Some(inventory_root),
            c.current_volume == Some(current_volume),
            c.blinding == Some(blinding),
            c.item_id == Some(item_id),
            c.actual_quantity == Some(actual_quantity),
            c.min_quantity == Some(min_quantity),
            c.proof == Some(mp),
    {
        let commitment = create_smt_commitment(inventory_root, current_volume, blinding);
        let public_hash = compute_item_exists_hash(commitment, item_id, min_quantity);
        ItemExistsSMTCircuit {
            public_hash: Some(public_hash),
            inventory_root: Some(inventory_root),
            current_volume: Some(current_volume),
            blinding: Some(blinding),
            item_id: Some(item_id),
            actual_quantity: Some(actual_quantity),
            min_quantity: Some(min_quantity),
            proof: Some(mp),
        }
    }

    /// Writes the relation for the values of the circuit into a system. The
    /// proof must be given. Where another value is missing nothing is written
    /// and the error says so. Otherwise the system gets the one public input,
    /// the witnesses and all constraints; it is then satisfied just where it
    /// was before and the values meet the relation.
    #[verifier::rlimit(50)]
    pub fn generate_constraints(&self, cs: &mut ConstraintSystem) -> (r: Result<
        (),
        SynthesisError,
    >)
        requires
            old(cs).wf(),
            self.proof is Some,
        ensures
            final(cs).wf(),
            r is Ok <==> self.complete(),
            r is Err ==> r == Err::<(), SynthesisError>(SynthesisError::AssignmentMissing)
                && *final(cs) == *old(cs),
            r is Ok ==> final(cs).extends(old(cs)) && final(cs).spec_public_inputs() == old(
                cs,
            ).spec_public_inputs().push(self.public_hash->0@) && sat_step(
                final(cs),
                old(cs),
                self.holds(),
            ),
    {
        let (public_hash, inventory_root, current_volume, blinding) = match (
            self.public_hash,
            self.inventory_root,
            self.current_volume,
            self.blinding,
        ) {
            (Some(a), Some(b), Some(c), Some(d)) => (a, b, c, d),
            _ => {
                return Err(SynthesisError::AssignmentMissing);
            },
        };
        let (item_id, actual_quantity, min_quantity) = match (
            self.item_id,
            self.actual_quantity,
            self.min_quantity,
        ) {
            (Some(a), Some(b), Some(c)) => (a, b, c),
            _ => {
                return Err(SynthesisError::AssignmentMissing);
            },
        };
        let held = &self.proof;
        let mp = match held {
            Some(p) => p,
            None => {
                return Err(SynthesisError::AssignmentMissing);
            },
        };
        let public_hash_var = cs.new_input(public_hash);
        let root_var = cs.new_witness(inventory_root);
        let volume_var = cs.new_witness(FieldElement::from_u64(current_volume));
        let blinding_var = cs.new_witness(blinding);
        let item_id_var = cs.new_witness(FieldElement::from_u64(item_id));
        let actual_qty_var = cs.new_witness(FieldElement::from_u64(actual_quantity));
        let min_qty_var = cs.new_witness(FieldElement::from_u64(min_quantity));
        let proof_var = MerkleProofVar::new_witness(cs, mp);
        verify_membership(cs, &root_var, &item_id_var, &actual_qty_var, &proof_var);
        let commitment_var = create_smt_commitment_var(cs, &root_var, &volume_var, &blinding_var);
        let inputs = [commitment_var.clone(), item_id_var.clone(), min_qty_var.clone()];
        proof {
            assert(var_values(inputs@) =~= seq![commitment_var@, item_id_var@, min_qty_var@]);
            assert(all_valid_in(inputs@, cs));
        }
        let computed_hash = anemoi_hash_many_var(cs, inputs.as_slice());
        computed_hash.enforce_equal(&public_hash_var, cs);
        Ok(())
    }
}

} // verus!
