//! The capacity relation: an inventory, known by its commitment, has a
//! volume that the prover knows, under a capacity bound to the proof.
//!
//! The one public input is the hash of the commitment and the capacity. The
//! constraints bind the volume to the commitment and the capacity to the
//! public input. That the volume does not exceed the capacity is checked
//! where the circuit is built, not by the constraints.

use crate::anemoi::gadgets::{anemoi_hash_many_var, sat_step};
use crate::anemoi::native::{anemoi_hash_many, hash_many_spec};
use crate::field::{values, FieldElement};
use crate::r1cs::{
    all_valid_in, lemma_all_valid_in_extension, lemma_extends_transitive, lemma_grows_transitive,
    lemma_valid_in_extension, var_values, ConstraintSystem, SynthesisError,
};
use crate::smt_commitment::{commitment_spec, create_smt_commitment, create_smt_commitment_var};
use vstd::prelude::*;

verus! {

broadcast use {
    lemma_valid_in_extension,
    lemma_all_valid_in_extension,
    lemma_grows_transitive,
    lemma_extends_transitive,
};

/// The public input of the capacity relation: the hash of the commitment and
/// the capacity.
pub open spec fn capacity_hash_spec(commitment: nat, max_capacity: nat) -> nat {
    hash_many_spec(seq![commitment, max_capacity])
}

/// Computes the public input of the capacity relation.
pub fn compute_capacity_hash(commitment: FieldElement, max_capacity: u64) -> (h: FieldElement)
    ensures
        h@ == capacity_hash_spec(commitment@, max_capacity as nat),
{
    let inputs = [commitment, FieldElement::from_u64(max_capacity)];
    assert(values(inputs@) =~= seq![commitment@, max_capacity as nat]);
    anemoi_hash_many(inputs.as_slice())
}

/// The circuit of the capacity relation, as a prover fills it in.
#[derive(Clone, Copy, Debug)]
pub struct CapacitySMTCircuit {
    /// The public input.
    pub public_hash: Option<FieldElement>,
    /// The root of the tree.
    pub inventory_root: Option<FieldElement>,
    /// The volume of the inventory.
    pub current_volume: Option<u64>,
    /// The blinding factor of the commitment.
    pub blinding: Option<FieldElement>,
    /// The capacity.
    pub max_capacity: Option<u64>,
}

impl CapacitySMTCircuit {
    /// Whether every value is given.
    pub open spec fn complete(&self) -> bool {
        &&& self.public_hash is Some
        &&& self.inventory_root is Some
        &&& self.current_volume is Some
        &&& self.blinding is Some
        &&& self.max_capacity is Some
    }

    /// The relation: the public input is the hash of the commitment and the
    /// capacity.
    pub open spec fn holds(&self) -> bool {
        self.public_hash->0@ == capacity_hash_spec(
            commitment_spec(
                self.inventory_root->0@,
                self.current_volume->0 as nat,
                self.blinding->0@,
            ),
            self.max_capacity->0 as nat,
        )
    }

    /// A circuit with no value given.
    pub fn empty() -> (c: Self)
        ensures
            c.public_hash is None,
            c.inventory_root is None,
            c.current_volume is None,
            c.blinding is None,
            c.max_capacity is None,
    {
        CapacitySMTCircuit {
            public_hash: None,
            inventory_root: None,
            current_volume: None,
            blinding: None,
            max_capacity: None,
        }
    }

    /// The circuit for an inventory and a capacity, with the public input
    /// computed from the commitment.
    pub fn new(
        inventory_root: FieldElement,
        current_volume: u64,
        blinding: FieldElement,
        max_capacity: u64,
    ) -> (c: Self)
        ensures
            c.complete(),
            c.public_hash->0@ == capacity_hash_spec(
                commitment_spec(inventory_root@, current_volume as nat, blinding@),
                max_capacity as nat,
            ),
            c.inventory_root == Some(inventory_root),
            c.current_volume == Some(current_volume),
            c.blinding == Some(blinding),
            c.max_capacity == Some(max_capacity),
    {
        let commitment = create_smt_commitment(inventory_root, current_volume, blinding);
        let public_hash = compute_capacity_hash(commitment, max_capacity);
        CapacitySMTCircuit {
            public_hash: Some(public_hash),
            inventory_root: Some(inventory_root),
            current_volume: Some(current_volume),
            blinding: Some(blinding),
            max_capacity: Some(max_capacity),
        }
    }

    /// Writes the relation for the values of the circuit into a system.
    /// Where a value is missing nothing is written and the error says so.
    /// Otherwise the system gets the one public input, the witnesses and all
    /// constraints; it is then satisfied just where it was before and the
    /// values meet the relation.
    #[verifier::rlimit(50)]
    pub fn generate_constraints(&self, cs: &mut ConstraintSystem) -> (r: Result<
        (),
        SynthesisError,
    >)
        requires
            old(cs).wf(),
        ensures
            final(cs).wf(),
            r is Ok <==> self.complete(),
            r is Err ==> r == Err::<(), SynthesisError>(SynthesisError::AssignmentMissing)
                && *final(cs) == *old(cs),
            r is Ok ==> final(cs).extends(old(cs)) && final(cs).spec_public_inputs() == old(
                cs,
            ).spec_public_inputs().push(self.public_hash->0@) && sat_step(
                final(cs),
                old(cs),
                self.holds(),
            ),
    {
        let (public_hash, inventory_root, current_volume, blinding, max_capacity) = match (
            self.public_hash,
            self.inventory_root,
            self.current_volume,
            self.blinding,
            self.max_capacity,
        ) {
            (Some(a), Some(b), Some(c), Some(d), Some(e)) => (a, b, c, d, e),
            _ => {
                return Err(SynthesisError::AssignmentMissing);
            },
        };
        let public_hash_var = cs.new_input(public_hash);
        let root_var = cs.new_witness(inventory_root);
        let volume_var = cs.new_witness(FieldElement::from_u64(current_volume));
        let blinding_var = cs.new_witness(blinding);
        let max_capacity_var = cs.new_witness(FieldElement::from_u64(max_capacity));
        let commitment_var = create_smt_commitment_var(cs, &root_var, &volume_var, &blinding_var);
        let inputs = [commitment_var.clone(), max_capacity_var.clone()];
        proof {
            assert(var_values(inputs@) =~= seq![commitment_var@, max_capacity_var@]);
            assert(all_valid_in(inputs@, cs));
        }
        let computed_hash = anemoi_hash_many_var(cs, inputs.as_slice());
        computed_hash.enforce_equal(&public_hash_var, cs);
        Ok(())
    }
}

} // verus!
