//! The signal: the one public value that binds every parameter of a state
//! transition.

use crate::anemoi::gadgets::{anemoi_hash_many_var, sat_step};
use crate::anemoi::native::{
    all_residues, anemoi_hash_many, collision_exists, hash_many_spec, lemma_hash_many_binds,
};
use crate::field::{modulus, values, FieldElement};
use crate::r1cs::{
    all_valid_in, lemma_all_valid_in_extension, lemma_grows_transitive, lemma_valid_in_extension,
    var_values, ConstraintSystem, FpVar,
};
use vstd::prelude::*;

verus! {

broadcast use {lemma_valid_in_extension, lemma_all_valid_in_extension, lemma_grows_transitive};

/// The two operations on an inventory.
#[derive(Clone, Copy, Debug, PartialEq, Eq, Structural)]
pub enum OpType {
    /// Items come into the inventory.
    Deposit,
    /// Items leave the inventory.
    Withdraw,
}

impl OpType {
    /// The code of the operation: zero for a deposit, one for a withdrawal.
    pub open spec fn code(self) -> nat {
        match self {
            OpType::Deposit => 0,
            OpType::Withdraw => 1,
        }
    }

    /// The code of the operation as a field element.
    pub fn to_field(self) -> (f: FieldElement)
        ensures
            f@ == self.code(),
    {
        match self {
            OpType::Deposit => FieldElement::from_u64(0),
            OpType::Withdraw => FieldElement::from_u64(1),
        }
    }
}

/// The nine values that the signal binds, in their fixed order.
pub open spec fn signal_inputs_spec(
    old_commitment: nat,
    new_commitment: nat,
    registry_root: nat,
    max_capacity: nat,
    item_id: nat,
    amount: nat,
    op_code: nat,
    nonce: nat,
    inventory_id: nat,
) -> Seq<nat> {
    seq![
        old_commitment,
        new_commitment,
        registry_root,
        max_capacity,
        item_id,
        amount,
        op_code,
        nonce,
        inventory_id,
    ]
}

/// The signal of nine values: their hash, taken in the fixed order.
pub open spec fn signal_spec(
    old_commitment: nat,
    new_commitment: nat,
    registry_root: nat,
    max_capacity: nat,
    item_id: nat,
    amount: nat,
    op_code: nat,
    nonce: nat,
    inventory_id: nat,
) -> nat {
    hash_many_spec(
        signal_inputs_spec(
            old_commitment,
            new_commitment,
            registry_root,
            max_capacity,
            item_id,
            amount,
            op_code,
            nonce,
            inventory_id,
        ),
    )
}

/// The signal binds the nonce: two signals of residues that differ in the
/// nonce alone are the same only if the hash has a collision.
pub proof fn lemma_signal_binds_nonce(
    old_commitment: nat,
    new_commitment: nat,
    registry_root: nat,
    max_capacity: nat,
    item_id: nat,
    amount: nat,
    op_code: nat,
    nonce1: nat,
    nonce2: nat,
    inventory_id: nat,
)
    requires
        all_residues(
            signal_inputs_spec(
                old_commitment,
                new_commitment,
                registry_root,
                max_capacity,
                item_id,
                amount,
                op_code,
                nonce1,
                inventory_id,
            ),
        ),
        nonce2 < modulus(),
        nonce1 != nonce2,
        signal_spec(
            old_commitment,
            new_commitment,
            registry_root,
            max_capacity,
            item_id,
            amount,
            op_code,
            nonce1,
            inventory_id,
        ) == signal_spec(
            old_commitment,
            new_commitment,
            registry_root,
            max_capacity,
            item_id,
            amount,
            op_code,
            nonce2,
            inventory_id,
        ),
    ensures
        collision_exists(),
{
    let xs = signal_inputs_spec(
        old_commitment,
        new_commitment,
        registry_root,
        max_capacity,
        item_id,
        amount,
        op_code,
        nonce1,
        inventory_id,
    );
    let ys = signal_inputs_spec(
        old_commitment,
        new_commitment,
        registry_root,
        max_capacity,
        item_id,
        amount,
        op_code,
        nonce2,
        inventory_id,
    );
    assert(xs[7] != ys[7]);
    assert forall|i: int| 0 <= i < ys.len() implies #[trigger] ys[i] < modulus() by {
        if i != 7 {
            assert(ys[i] == xs[i]);
        }
    }
    lemma_hash_many_binds(xs, ys);
}

/// The signal binds the inventory: two signals of residues that differ in
/// the inventory alone are the same only if the hash has a collision.
pub proof fn lemma_signal_binds_inventory(
    old_commitment: nat,
    new_commitment: nat,
    registry_root: nat,
    max_capacity: nat,
    item_id: nat,
    amount: nat,
    op_code: nat,
    nonce: nat,
    inventory_id1: nat,
    inventory_id2: nat,
)
    requires
        all_residues(
            signal_inputs_spec(
                old_commitment,
                new_commitment,
                registry_root,
                max_capacity,
                item_id,
                amount,
                op_code,
                nonce,
                inventory_id1,
            ),
        ),
        inventory_id2 < modulus(),
        inventory_id1 != inventory_id2,
        signal_spec(
            old_commitment,
            new_commitment,
            registry_root,
            max_capacity,
            item_id,
            amount,
            op_code,
            nonce,
            inventory_id1,
        ) == signal_spec(
            old_commitment,
            new_commitment,
            registry_root,
            max_capacity,
            item_id,
            amount,
            op_code,
            nonce,
            inventory_id2,
        ),
    ensures
        collision_exists(),
{
    let xs = signal_inputs_spec(
        old_commitment,
        new_commitment,
        registry_root,
        max_capacity,
        item_id,
        amount,
        op_code,
        nonce,
        inventory_id1,
    );
    let ys = signal_inputs_spec(
        old_commitment,
        new_commitment,
        registry_root,
        max_capacity,
        item_id,
        amount,
        op_code,
        nonce,
        inventory_id2,
    );
    assert(xs[8] != ys[8]);
    assert forall|i: int| 0 <= i < ys.len() implies #[trigger] ys[i] < modulus() by {
        if i != 8 {
            assert(ys[i] == xs[i]);
        }
    }
    lemma_hash_many_binds(xs, ys);
}

/// The parameters of a state transition that the signal binds.
#[derive(Clone, Copy, Debug)]
pub struct SignalInputs {
    /// The commitment to the inventory before the operation.
    pub old_commitment: FieldElement,
    /// The commitment to the inventory after the operation.
    pub new_commitment: FieldElement,
    /// The root of the registry of item volumes.
    pub registry_root: FieldElement,
    /// The capacity of the inventory.
    pub max_capacity: u64,
    /// The item that the operation moves.
    pub item_id: u64,
    /// How many of the item it moves.
    pub amount: u64,
    /// Whether they come in or go out.
    pub op_type: OpType,
    /// The number that makes the signal fresh.
    pub nonce: u64,
    /// The inventory that the operation belongs to.
    pub inventory_id: FieldElement,
}

impl SignalInputs {
    /// The signal of these inputs.
    pub open spec fn hash_spec(self) -> nat {
        signal_spec(
            self.old_commitment@,
            self.new_commitment@,
            self.registry_root@,
            self.max_capacity as nat,
            self.item_id as nat,
            self.amount as nat,
            self.op_type.code(),
            self.nonce as nat,
            self.inventory_id@,
        )
    }

    /// Computes the signal of these inputs.
    pub fn compute_hash(&self) -> (h: FieldElement)
        ensures
            h@ == self.hash_spec(),
    {
        let inputs = [
            self.old_commitment,
            self.new_commitment,
            self.registry_root,
            FieldElement::from_u64(self.max_capacity),
            FieldElement::from_u64(self.item_id),
            FieldElement::from_u64(self.amount),
            self.op_type.to_field(),
            FieldElement::from_u64(self.nonce),
            self.inventory_id,
        ];
        assert(values(inputs@) =~= signal_inputs_spec(
            self.old_commitment@,
            self.new_commitment@,
            self.registry_root@,
            self.max_capacity as nat,
            self.item_id as nat,
            self.amount as nat,
            self.op_type.code(),
            self.nonce as nat,
            self.inventory_id@,
        ));
        anemoi_hash_many(inputs.as_slice())
    }
}

/// Computes the signal of a state transition from its parameters.
pub fn compute_signal_hash(
    old_commitment: FieldElement,
    new_commitment: FieldElement,
    registry_root: FieldElement,
    max_capacity: u64,
    item_id: u64,
    amount: u64,
    op_type: OpType,
    nonce: u64,
    inventory_id: FieldElement,
) -> (h: FieldElement)
    ensures
        h@ == signal_spec(
            old_commitment@,
            new_commitment@,
            registry_root@,
            max_capacity as nat,
            item_id as nat,
            amount as nat,
            op_type.code(),
            nonce as nat,
            inventory_id@,
        ),
{
    let inputs = SignalInputs {
        old_commitment,
        new_commitment,
        registry_root,
        max_capacity,
        item_id,
        amount,
        op_type,
        nonce,
        inventory_id,
    };
    inputs.compute_hash()
}

/// The parameters of a state transition as variables of a circuit.
#[derive(Clone, Debug)]
pub struct SignalInputsVar {
    pub old_commitment: FpVar,
    pub new_commitment: FpVar,
    pub registry_root: FpVar,
    pub max_capacity: FpVar,
    pub item_id: FpVar,
    pub amount: FpVar,
    pub op_type: FpVar,
    pub nonce: FpVar,
    pub inventory_id: FpVar,
}

impl SignalInputsVar {
    /// Whether the nine variables belong to a system.
    pub open spec fn valid_in(&self, cs: &ConstraintSystem) -> bool {
        &&& self.old_commitment.valid_in(cs)
        &&& self.new_commitment.valid_in(cs)
        &&& self.registry_root.valid_in(cs)
        &&& self.max_capacity.valid_in(cs)
        &&& self.item_id.valid_in(cs)
        &&& self.amount.valid_in(cs)
        &&& self.op_type.valid_in(cs)
        &&& self.nonce.valid_in(cs)
        &&& self.inventory_id.valid_in(cs)
    }

    /// The signal of these inputs.
    pub open spec fn hash_spec(&self) -> nat {
        signal_spec(
            self.old_commitment@,
            self.new_commitment@,
            self.registry_root@,
            self.max_capacity@,
            self.item_id@,
            self.amount@,
            self.op_type@,
            self.nonce@,
            self.inventory_id@,
        )
    }

    /// The inputs from their nine parts.
    pub fn new(
        old_commitment: FpVar,
        new_commitment: FpVar,
        registry_root: FpVar,
        max_capacity: FpVar,
        item_id: FpVar,
        amount: FpVar,
        op_type: FpVar,
        nonce: FpVar,
        inventory_id: FpVar,
    ) -> (s: Self)
        ensures
            s.old_commitment == old_commitment,
            s.new_commitment == new_commitment,
            s.registry_root == registry_root,
            s.max_capacity == max_capacity,
            s.item_id == item_id,
            s.amount == amount,
            s.op_type == op_type,
            s.nonce == nonce,
            s.inventory_id == inventory_id,
    {
        SignalInputsVar {
            old_commitment,
            new_commitment,
            registry_root,
            max_capacity,
            item_id,
            amount,
            op_type,
            nonce,
            inventory_id,
        }
    }

    /// Computes the signal of these inputs in a circuit.
    pub fn compute_hash(&self, cs: &mut ConstraintSystem) -> (h: FpVar)
        requires
            old(cs).wf(),
            self.valid_in(old(cs)),
        ensures
            final(cs).wf(),
            final(cs).grows_from(old(cs)),
            sat_step(final(cs), old(cs), true),
            h.valid_in(final(cs)),
            h@ == self.hash_spec(),
    {
        let inputs = [
            self.old_commitment.clone(),
            self.new_commitment.clone(),
            self.registry_root.clone(),
            self.max_capacity.clone(),
            self.item_id.clone(),
            self.amount.clone(),
            self.op_type.clone(),
            self.nonce.clone(),
            self.inventory_id.clone(),
        ];
        proof {
            assert(var_values(inputs@) =~= signal_inputs_spec(
                self.old_commitment@,
                self.new_commitment@,
                self.registry_root@,
                self.max_capacity@,
                self.item_id@,
                self.amount@,
                self.op_type@,
                self.nonce@,
                self.inventory_id@,
            ));
            assert(all_valid_in(inputs@, cs));
        }
        anemoi_hash_many_var(cs, inputs.as_slice())
    }
}

/// Computes the signal of a state transition in a circuit.
pub fn compute_signal_hash_var(
    cs: &mut ConstraintSystem,
    old_commitment: &FpVar,
    new_commitment: &FpVar,
    registry_root: &FpVar,
    max_capacity: &FpVar,
    item_id: &FpVar,
    amount: &FpVar,
    op_type: &FpVar,
    nonce: &FpVar,
    inventory_id: &FpVar,
) -> (h: FpVar)
    requires
        old(cs).wf(),
        old_commitment.valid_in(old(cs)),
        new_commitment.valid_in(old(cs)),
        registry_root.valid_in(old(cs)),
        max_capacity.valid_in(old(cs)),
        item_id.valid_in(old(cs)),
        amount.valid_in(old(cs)),
        op_type.valid_in(old(cs)),
        nonce.valid_in(old(cs)),
        inventory_id.valid_in(old(cs)),
    ensures
        final(cs).wf(),
        final(cs).grows_from(old(cs)),
        sat_step(final(cs), old(cs), true),
        h.valid_in(final(cs)),
        h@ == signal_spec(
            old_commitment@,
            new_commitment@,
            registry_root@,
            max_capacity@,
            item_id@,
            amount@,
            op_type@,
            nonce@,
            inventory_id@,
        ),
{
    let inputs = SignalInputsVar::new(
        old_commitment.clone(),
        new_commitment.clone(),
        registry_root.clone(),
        max_capacity.clone(),
        item_id.clone(),
        amount.clone(),
        op_type.clone(),
        nonce.clone(),
        inventory_id.clone(),
    );
    inputs.compute_hash(cs)
}

} // verus!
