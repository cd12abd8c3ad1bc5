//! The state transition relation: one deposit into, or one withdrawal from,
//! a private inventory, within its capacity.
//!
//! The relation takes the old and the new snapshot of the inventory, the item
//! and the quantities, the membership proof of the item in the old tree, and
//! the values that tie the operation to its context. Its constraints say, in
//! this order: the proof leads from the old leaf to the old root and from the
//! new leaf to the new root; the new quantity is the old one plus or minus
//! the amount, and fits in 32 bits; the new volume is the old one plus or
//! minus the volume of the amount, and fits in 32 bits; the capacity is not
//! exceeded; the operation is a deposit or a withdrawal; and the signal binds
//! the commitments to both snapshots and all public values.

use crate::anemoi::gadgets::sat_step;
use crate::field::{fadd, fmul, fsub, FieldElement};
use crate::r1cs::{
    lemma_bool_valid_in_extension, lemma_extends_transitive, lemma_grows_transitive,
    lemma_valid_in_extension, Boolean, ConstraintSystem, FpVar, SynthesisError,
};
use crate::range_check::{enforce_geq, enforce_u32_range, lemma_small_difference, RANGE_BITS};
use crate::signal::{compute_signal_hash, compute_signal_hash_var, signal_spec, OpType};
use crate::smt::gadgets::{verify_and_update, MerkleProofVar};
use crate::smt::merkle_proof::{slot_leaf_spec, MerkleProof};
use crate::smt::tree::DEFAULT_DEPTH;
use crate::smt_commitment::{commitment_spec, create_smt_commitment, create_smt_commitment_var};
use vstd::arithmetic::power2::{lemma2_to64, pow2};
use vstd::prelude::*;

verus! {

broadcast use {
    lemma_valid_in_extension,
    lemma_bool_valid_in_extension,
    lemma_grows_transitive,
    lemma_extends_transitive,
    MerkleProofVar::lemma_valid_in_extension,
};

/// What an operation makes of a number: with code zero, a deposit, it adds
/// `delta`; with any other code it takes `delta` away. Both in the field.
pub open spec fn expected_after(op_code: nat, before: nat, delta: nat) -> nat {
    if op_code == 0 {
        fadd(before, delta)
    } else {
        fsub(before, delta)
    }
}

/// The part of the relation that speaks of quantities, volumes and capacity.
pub open spec fn amounts_hold(
    op_code: nat,
    old_quantity: nat,
    new_quantity: nat,
    amount: nat,
    old_volume: nat,
    new_volume: nat,
    item_volume: nat,
    max_capacity: nat,
) -> bool {
    &&& new_quantity == expected_after(op_code, old_quantity, amount)
    &&& new_quantity < pow2(RANGE_BITS as nat)
    &&& new_volume == expected_after(op_code, old_volume, fmul(item_volume, amount))
    &&& new_volume < pow2(RANGE_BITS as nat)
    &&& fsub(max_capacity, new_volume) < pow2(RANGE_BITS as nat)
    &&& (op_code == 0 || op_code == 1)
}

/// The private data of one state transition, with the signal that is its
/// public face.
#[derive(Debug)]
pub struct TransitionWitness {
    pub signal_hash: FieldElement,
    pub old_inventory_root: FieldElement,
    pub old_volume: u64,
    pub old_blinding: FieldElement,
    pub new_inventory_root: FieldElement,
    pub new_volume: u64,
    pub new_blinding: FieldElement,
    pub item_id: u64,
    pub old_quantity: u64,
    pub new_quantity: u64,
    pub amount: u64,
    pub op_type: OpType,
    pub inventory_proof: MerkleProof,
    pub item_volume: u64,
    pub registry_root: FieldElement,
    pub max_capacity: u64,
    pub nonce: u64,
    pub inventory_id: FieldElement,
}

impl TransitionWitness {
    /// The commitment to the old snapshot.
    pub open spec fn old_commitment_spec(&self) -> nat {
        commitment_spec(self.old_inventory_root@, self.old_volume as nat, self.old_blinding@)
    }

    /// The commitment to the new snapshot.
    pub open spec fn new_commitment_spec(&self) -> nat {
        commitment_spec(self.new_inventory_root@, self.new_volume as nat, self.new_blinding@)
    }

    /// The signal that the witness should carry.
    pub open spec fn expected_signal_spec(&self) -> nat {
        signal_spec(
            self.old_commitment_spec(),
            self.new_commitment_spec(),
            self.registry_root@,
            self.max_capacity as nat,
            self.item_id as nat,
            self.amount as nat,
            self.op_type.code(),
            self.nonce as nat,
            self.inventory_id@,
        )
    }

    /// The part of the relation that speaks of the tree: the proof leads from
    /// the old leaf to the old root and from the new leaf to the new root.
    pub open spec fn accumulator_holds(&self) -> bool {
        &&& self.inventory_proof.root_from_leaf_spec(
            slot_leaf_spec(self.item_id as nat, self.old_quantity as nat),
        ) == self.old_inventory_root@
        &&& self.inventory_proof.root_from_leaf_spec(
            slot_leaf_spec(self.item_id as nat, self.new_quantity as nat),
        ) == self.new_inventory_root@
    }

    /// The part of the relation that speaks of quantities, volumes and
    /// capacity.
    pub open spec fn amounts_hold(&self) -> bool {
        amounts_hold(
            self.op_type.code(),
            self.old_quantity as nat,
            self.new_quantity as nat,
            self.amount as nat,
            self.old_volume as nat,
            self.new_volume as nat,
            self.item_volume as nat,
            self.max_capacity as nat,
        )
    }

    /// The whole relation.
    pub open spec fn holds(&self) -> bool {
        &&& self.accumulator_holds()
        &&& self.amounts_hold()
        &&& self.signal_hash@ == self.expected_signal_spec()
    }

    /// The public inputs of the relation, in the order in which a verifier
    /// takes them.
    pub open spec fn public_inputs_spec(&self) -> Seq<nat> {
        seq![self.signal_hash@, self.nonce as nat, self.inventory_id@, self.registry_root@]
    }
}

/// A withdrawal of more than there is cannot meet the relation, whatever new
/// quantity is claimed.
pub proof fn lemma_underflow_rejected(
    old_quantity: u64,
    new_quantity: u64,
    amount: u64,
    old_volume: u64,
    new_volume: u64,
    item_volume: u64,
    max_capacity: u64,
)
    requires
        amount > old_quantity,
    ensures
        !amounts_hold(
            OpType::Withdraw.code(),
            old_quantity as nat,
            new_quantity as nat,
            amount as nat,
            old_volume as nat,
            new_volume as nat,
            item_volume as nat,
            max_capacity as nat,
        ),
{
    lemma_small_difference(old_quantity as nat, amount as nat);
}

/// A withdrawal of no more than there is, which leaves less than two to the
/// 32, meets the part of the relation that speaks of the quantity just where
/// the new quantity is the old one less the amount.
pub proof fn lemma_withdrawal_quantity(old_quantity: u64, new_quantity: u64, amount: u64)
    requires
        amount <= old_quantity,
        old_quantity - amount < pow2(RANGE_BITS as nat),
    ensures
        (new_quantity as nat == expected_after(1, old_quantity as nat, amount as nat)
            && (new_quantity as nat) < pow2(RANGE_BITS as nat)) <==> new_quantity == old_quantity
            - amount,
{
    lemma2_to64();
    vstd::arithmetic::div_mod::lemma_small_mod(
        (old_quantity - amount) as nat,
        crate::field::modulus(),
    );
}

/// The capacity check passes just where the new volume does not exceed the
/// capacity and falls short of it by less than two to the 32: a volume equal
/// to the capacity passes, a volume one above it does not.
pub proof fn lemma_capacity_boundary(max_capacity: u64, new_volume: u64)
    ensures
        fsub(max_capacity as nat, new_volume as nat) < pow2(RANGE_BITS as nat) <==> (new_volume
            <= max_capacity && max_capacity - new_volume < pow2(RANGE_BITS as nat)),
        new_volume == max_capacity ==> fsub(max_capacity as nat, new_volume as nat) < pow2(
            RANGE_BITS as nat,
        ),
        new_volume == max_capacity + 1 ==> !(fsub(max_capacity as nat, new_volume as nat) < pow2(
            RANGE_BITS as nat,
        )),
{
    lemma_small_difference(max_capacity as nat, new_volume as nat);
    lemma2_to64();
}

/// The variables of one state transition.
#[derive(Debug)]
pub struct TransitionVars {
    pub signal_hash: FpVar,
    pub nonce: FpVar,
    pub inventory_id: FpVar,
    pub registry_root: FpVar,
    pub old_root: FpVar,
    pub old_volume: FpVar,
    pub old_blinding: FpVar,
    pub new_root: FpVar,
    pub new_volume: FpVar,
    pub new_blinding: FpVar,
    pub item_id: FpVar,
    pub old_quantity: FpVar,
    pub new_quantity: FpVar,
    pub amount: FpVar,
    pub op_type: FpVar,
    pub inventory_proof: MerkleProofVar,
    pub item_volume: FpVar,
    pub max_capacity: FpVar,
}

impl TransitionVars {
    /// Whether every variable belongs to a system.
    pub open spec fn valid_in(&self, cs: &ConstraintSystem) -> bool {
        &&& self.signal_hash.valid_in(cs)
        &&& self.nonce.valid_in(cs)
        &&& self.inventory_id.valid_in(cs)
        &&& self.registry_root.valid_in(cs)
        &&& self.old_root.valid_in(cs)
        &&& self.old_volume.valid_in(cs)
        &&& self.old_blinding.valid_in(cs)
        &&& self.new_root.valid_in(cs)
        &&& self.new_volume.valid_in(cs)
        &&& self.new_blinding.valid_in(cs)
        &&& self.item_id.valid_in(cs)
        &&& self.old_quantity.valid_in(cs)
        &&& self.new_quantity.valid_in(cs)
        &&& self.amount.valid_in(cs)
        &&& self.op_type.valid_in(cs)
        &&& self.inventory_proof.valid_in(cs)
        &&& self.item_volume.valid_in(cs)
        &&& self.max_capacity.valid_in(cs)
    }

    /// Whether the variables have the values of a witness.
    pub open spec fn matches(&self, w: &TransitionWitness) -> bool {
        &&& self.signal_hash@ == w.signal_hash@
        &&& self.nonce@ == w.nonce as nat
        &&& self.inventory_id@ == w.inventory_id@
        &&& self.registry_root@ == w.registry_root@
        &&& self.old_root@ == w.old_inventory_root@
        &&& self.old_volume@ == w.old_volume as nat
        &&& self.old_blinding@ == w.old_blinding@
        &&& self.new_root@ == w.new_inventory_root@
        &&& self.new_volume@ == w.new_volume as nat
        &&& self.new_blinding@ == w.new_blinding@
        &&& self.item_id@ == w.item_id as nat
        &&& self.old_quantity@ == w.old_quantity as nat
        &&& self.new_quantity@ == w.new_quantity as nat
        &&& self.amount@ == w.amount as nat
        &&& self.op_type@ == w.op_type.code()
        &&& self.inventory_proof.spec_path() == w.inventory_proof.spec_path()
        &&& self.inventory_proof.spec_indices() == w.inventory_proof.spec_indices()
        &&& self.item_volume@ == w.item_volume as nat
        &&& self.max_capacity@ == w.max_capacity as nat
    }

    /// Allocates the variables of a witness: the signal, the nonce, the
    /// inventory and the registry root as public inputs, in this order, and
    /// everything else as witnesses.
    #[verifier::rlimit(50)]
    pub fn allocate(cs: &mut ConstraintSystem, w: &TransitionWitness) -> (vars: Self)
        requires
            old(cs).wf(),
        ensures
            final(cs).wf(),
            final(cs).extends(old(cs)),
            final(cs).spec_satisfied() == old(cs).spec_satisfied(),
            final(cs).spec_public_inputs() == old(cs).spec_public_inputs()
                + w.public_inputs_spec(),
            vars.valid_in(final(cs)),
            vars.matches(w),
    {
        let signal_hash = cs.new_input(w.signal_hash);
        let nonce = cs.new_input(FieldElement::from_u64(w.nonce));
        let inventory_id = cs.new_input(w.inventory_id);
        let registry_root = cs.new_input(w.registry_root);
        assert(cs.spec_public_inputs() =~= old(cs).spec_public_inputs() + w.public_inputs_spec());
        let old_root = cs.new_witness(w.old_inventory_root);
        let old_volume = cs.new_witness(FieldElement::from_u64(w.old_volume));
        let old_blinding = cs.new_witness(w.old_blinding);
        let new_root = cs.new_witness(w.new_inventory_root);
        let new_volume = cs.new_witness(FieldElement::from_u64(w.new_volume));
        let new_blinding = cs.new_witness(w.new_blinding);
        let item_id = cs.new_witness(FieldElement::from_u64(w.item_id));
        let old_quantity = cs.new_witness(FieldElement::from_u64(w.old_quantity));
        let new_quantity = cs.new_witness(FieldElement::from_u64(w.new_quantity));
        let amount = cs.new_witness(FieldElement::from_u64(w.amount));
        let op_type = cs.new_witness(w.op_type.to_field());
        let inventory_proof = MerkleProofVar::new_witness(cs, &w.inventory_proof);
        let item_volume = cs.new_witness(FieldElement::from_u64(w.item_volume));
        let max_capacity = cs.new_witness(FieldElement::from_u64(w.max_capacity));
        TransitionVars {
            signal_hash,
            nonce,
            inventory_id,
            registry_root,
            old_root,
            old_volume,
            old_blinding,
            new_root,
            new_volume,
            new_blinding,
            item_id,
            old_quantity,
            new_quantity,
            amount,
            op_type,
            inventory_proof,
            item_volume,
            max_capacity,
        }
    }

    /// Adds the constraints on the tree: the proof leads from the old leaf to
    /// the old root, and from the new leaf to the new root.
    #[verifier::rlimit(50)]
    pub fn constrain_accumulator(&self, cs: &mut ConstraintSystem)
        requires
            old(cs).wf(),
            self.valid_in(old(cs)),
        ensures
            final(cs).wf(),
            final(cs).grows_from(old(cs)),
            sat_step(
                final(cs),
                old(cs),
                self.inventory_proof.root_from_leaf_spec(
                    slot_leaf_spec(self.item_id@, self.old_quantity@),
                ) == self.old_root@ && self.inventory_proof.root_from_leaf_spec(
                    slot_leaf_spec(self.item_id@, self.new_quantity@),
                ) == self.new_root@,
            ),
    {
        let computed_new_root = verify_and_update(
            cs,
            &self.old_root,
            &self.item_id,
            &self.old_quantity,
            &self.new_quantity,
            &self.inventory_proof,
        );
        computed_new_root.enforce_equal(&self.new_root, cs);
    }

    /// Adds the constraints that the new quantity is the old one plus or
    /// minus the amount, and that it fits in `RANGE_BITS` bits.
    #[verifier::rlimit(50)]
    fn constrain_quantity(&self, cs: &mut ConstraintSystem, is_deposit: &Boolean)
        requires
            old(cs).wf(),
            self.valid_in(old(cs)),
            is_deposit.valid_in(old(cs)),
            is_deposit@ == (self.op_type@ == 0),
        ensures
            final(cs).wf(),
            final(cs).grows_from(old(cs)),
            final(cs).spec_satisfied() == (old(cs).spec_satisfied() && self.new_quantity@
                == expected_after(self.op_type@, self.old_quantity@, self.amount@)
                && self.new_quantity@ < pow2(RANGE_BITS as nat)),
    {
        let qty_plus_amount = self.old_quantity.add(&self.amount);
        let qty_minus_amount = self.old_quantity.sub(&self.amount);
        let expected_new_qty = is_deposit.select(&qty_plus_amount, &qty_minus_amount, cs);
        self.new_quantity.enforce_equal(&expected_new_qty, cs);
        enforce_u32_range(cs, &self.new_quantity);
    }

    /// Adds the constraints that the new volume is the old one plus or minus
    /// the volume of the amount, and that it fits in `RANGE_BITS` bits.
    #[verifier::rlimit(50)]
    fn constrain_volume(&self, cs: &mut ConstraintSystem, is_deposit: &Boolean)
        requires
            old(cs).wf(),
            self.valid_in(old(cs)),
            is_deposit.valid_in(old(cs)),
            is_deposit@ == (self.op_type@ == 0),
        ensures
            final(cs).wf(),
            final(cs).grows_from(old(cs)),
            final(cs).spec_satisfied() == (old(cs).spec_satisfied() && self.new_volume@
                == expected_after(
                self.op_type@,
                self.old_volume@,
                fmul(self.item_volume@, self.amount@),
            ) && self.new_volume@ < pow2(RANGE_BITS as nat)),
    {
        let volume_delta = self.item_volume.mul(&self.amount, cs);
        let vol_plus_delta = self.old_volume.add(&volume_delta);
        let vol_minus_delta = self.old_volume.sub(&volume_delta);
        let expected_new_volume = is_deposit.select(&vol_plus_delta, &vol_minus_delta, cs);
        self.new_volume.enforce_equal(&expected_new_volume, cs);
        enforce_u32_range(cs, &self.new_volume);
    }

    /// Adds the constraints that the operation is a deposit or a withdrawal.
    #[verifier::rlimit(50)]
    fn constrain_operation(&self, cs: &mut ConstraintSystem, is_deposit: &Boolean)
        requires
            old(cs).wf(),
            self.valid_in(old(cs)),
            is_deposit.valid_in(old(cs)),
            is_deposit@ == (self.op_type@ == 0),
        ensures
            final(cs).wf(),
            final(cs).grows_from(old(cs)),
            final(cs).spec_satisfied() == (old(cs).spec_satisfied() && (self.op_type@ == 0
                || self.op_type@ == 1)),
    {
        let one = FpVar::one();
        let is_withdraw = self.op_type.is_eq(&one, cs);
        let is_valid_op = is_deposit.or(&is_withdraw, cs);
        is_valid_op.enforce_true(cs);
    }

    /// Adds the constraints on quantities, volumes and capacity, and the one
    /// that the operation is a deposit or a withdrawal.
    #[verifier::rlimit(50)]
    pub fn constrain_amounts(&self, cs: &mut ConstraintSystem)
        requires
            old(cs).wf(),
            self.valid_in(old(cs)),
        ensures
            final(cs).wf(),
            final(cs).grows_from(old(cs)),
            final(cs).spec_satisfied() == (old(cs).spec_satisfied() && amounts_hold(
                self.op_type@,
                self.old_quantity@,
                self.new_quantity@,
                self.amount@,
                self.old_volume@,
                self.new_volume@,
                self.item_volume@,
                self.max_capacity@,
            )),
    {
        let zero = FpVar::zero();
        let is_deposit = self.op_type.is_eq(&zero, cs);
        self.constrain_quantity(cs, &is_deposit);
        self.constrain_volume(cs, &is_deposit);
        enforce_geq(cs, &self.max_capacity, &self.new_volume);
        self.constrain_operation(cs, &is_deposit);
    }

    /// Adds the constraints that the signal is the hash of the commitments to
    /// both snapshots and of the public values.
    #[verifier::rlimit(50)]
    pub fn constrain_signal(&self, cs: &mut ConstraintSystem)
        requires
            old(cs).wf(),
            self.valid_in(old(cs)),
        ensures
            final(cs).wf(),
            final(cs).grows_from(old(cs)),
            sat_step(
                final(cs),
                old(cs),
                self.signal_hash@ == signal_spec(
                    commitment_spec(self.old_root@, self.old_volume@, self.old_blinding@),
                    commitment_spec(self.new_root@, self.new_volume@, self.new_blinding@),
                    self.registry_root@,
                    self.max_capacity@,
                    self.item_id@,
                    self.amount@,
                    self.op_type@,
                    self.nonce@,
                    self.inventory_id@,
                ),
            ),
    {
        let old_commitment = create_smt_commitment_var(
            cs,
            &self.old_root,
            &self.old_volume,
            &self.old_blinding,
        );
        let new_commitment = create_smt_commitment_var(
            cs,
            &self.new_root,
            &self.new_volume,
            &self.new_blinding,
        );
        let computed_signal = compute_signal_hash_var(
            cs,
            &old_commitment,
            &new_commitment,
            &self.registry_root,
            &self.max_capacity,
            &self.item_id,
            &self.amount,
            &self.op_type,
            &self.nonce,
            &self.inventory_id,
        );
        computed_signal.enforce_equal(&self.signal_hash, cs);
    }
}

/// Writes the state transition relation for a witness into a system: its
/// four public inputs, its witnesses and all its constraints. The system
/// that comes out is satisfied just where the one that went in was and the
/// witness meets the relation.
#[verifier::rlimit(50)]
pub fn constrain_transition(cs: &mut ConstraintSystem, w: &TransitionWitness)
    requires
        old(cs).wf(),
    ensures
        final(cs).wf(),
        final(cs).extends(old(cs)),
        final(cs).spec_public_inputs() == old(cs).spec_public_inputs() + w.public_inputs_spec(),
        sat_step(final(cs), old(cs), w.holds()),
{
    let vars = TransitionVars::allocate(cs, w);
    vars.constrain_accumulator(cs);
    vars.constrain_amounts(cs);
    vars.constrain_signal(cs);
}

/// The circuit of the state transition relation, as a prover fills it in.
#[derive(Debug)]
pub struct StateTransitionCircuit {
    /// The signal: the public value that binds everything else.
    pub signal_hash: Option<FieldElement>,
    /// The root of the tree before the operation.
    pub old_inventory_root: Option<FieldElement>,
    /// The volume before the operation.
    pub old_volume: Option<u64>,
    /// The blinding factor of the old commitment.
    pub old_blinding: Option<FieldElement>,
    /// The root of the tree after the operation.
    pub new_inventory_root: Option<FieldElement>,
    /// The volume after the operation.
    pub new_volume: Option<u64>,
    /// The blinding factor of the new commitment.
    pub new_blinding: Option<FieldElement>,
    /// The item that the operation moves.
    pub item_id: Option<u64>,
    /// How many of the item there were.
    pub old_quantity: Option<u64>,
    /// How many of the item there are.
    pub new_quantity: Option<u64>,
    /// How many of the item the operation moves.
    pub amount: Option<u64>,
    /// Whether they come in or go out.
    pub op_type: Option<OpType>,
    /// The membership proof of the item in the old tree.
    pub inventory_proof: Option<MerkleProof>,
    /// The volume of one unit of the item.
    pub item_volume: Option<u64>,
    /// The root of the registry of item volumes.
    pub registry_root: Option<FieldElement>,
    /// The capacity of the inventory.
    pub max_capacity: Option<u64>,
    /// The number that makes the signal fresh.
    pub nonce: Option<u64>,
    /// The inventory that the operation belongs to.
    pub inventory_id: Option<FieldElement>,
}

impl StateTransitionCircuit {
    /// Whether every value of the circuit is given.
    pub open spec fn complete(&self) -> bool {
        &&& self.signal_hash is Some
        &&& self.old_inventory_root is Some
        &&& self.old_volume is Some
        &&& self.old_blinding is Some
        &&& self.new_inventory_root is Some
        &&& self.new_volume is Some
        &&& self.new_blinding is Some
        &&& self.item_id is Some
        &&& self.old_quantity is Some
        &&& self.new_quantity is Some
        &&& self.amount is Some
        &&& self.op_type is Some
        &&& self.inventory_proof is Some
        &&& self.item_volume is Some
        &&& self.registry_root is Some
        &&& self.max_capacity is Some
        &&& self.nonce is Some
        &&& self.inventory_id is Some
    }

    /// Whether a witness holds the values of the circuit.
    pub open spec fn filled_by(&self, w: &TransitionWitness) -> bool {
        &&& self.signal_hash == Some(w.signal_hash)
        &&& self.old_inventory_root == Some(w.old_inventory_root)
        &&& self.old_volume == Some(w.old_volume)
        &&& self.old_blinding == Some(w.old_blinding)
        &&& self.new_inventory_root == Some(w.new_inventory_root)
        &&& self.new_volume == Some(w.new_volume)
        &&& self.new_blinding == Some(w.new_blinding)
        &&& self.item_id == Some(w.item_id)
        &&& self.old_quantity == Some(w.old_quantity)
        &&& self.new_quantity == Some(w.new_quantity)
        &&& self.amount == Some(w.amount)
        &&& self.op_type == Some(w.op_type)
        &&& self.inventory_proof is Some
        &&& self.inventory_proof->0.spec_path() == w.inventory_proof.spec_path()
        &&& self.inventory_proof->0.spec_indices() == w.inventory_proof.spec_indices()
        &&& self.item_volume == Some(w.item_volume)
        &&& self.registry_root == Some(w.registry_root)
        &&& self.max_capacity == Some(w.max_capacity)
        &&& self.nonce == Some(w.nonce)
        &&& self.inventory_id == Some(w.inventory_id)
    }

    /// A circuit of the right shape for the setup: every value zero, the
    /// operation a deposit, the proof of the default depth with all siblings
    /// zero.
    pub fn empty() -> (c: Self)
        ensures
            c.complete(),
            c.signal_hash->0@ == 0,
            c.old_inventory_root->0@ == 0,
            c.old_blinding->0@ == 0,
            c.new_inventory_root->0@ == 0,
            c.new_blinding->0@ == 0,
            c.registry_root->0@ == 0,
            c.inventory_id->0@ == 0,
            c.old_volume == Some(0u64),
            c.new_volume == Some(0u64),
            c.item_id == Some(0u64),
            c.old_quantity == Some(0u64),
            c.new_quantity == Some(0u64),
            c.amount == Some(0u64),
            c.op_type == Some(OpType::Deposit),
            c.inventory_proof->0.spec_depth() == DEFAULT_DEPTH,
            forall|i: int|
                0 <= i < DEFAULT_DEPTH ==> c.inventory_proof->0.spec_path()[i] == 0
                    && !c.inventory_proof->0.spec_indices()[i],
            c.item_volume == Some(0u64),
            c.max_capacity == Some(0u64),
            c.nonce == Some(0u64),
    {
        let dummy_proof = MerkleProof::empty(DEFAULT_DEPTH);
        StateTransitionCircuit {
            signal_hash: Some(FieldElement::zero()),
            old_inventory_root: Some(FieldElement::zero()),
            old_volume: Some(0),
            old_blinding: Some(FieldElement::zero()),
            new_inventory_root: Some(FieldElement::zero()),
            new_volume: Some(0),
            new_blinding: Some(FieldElement::zero()),
            item_id: Some(0),
            old_quantity: Some(0),
            new_quantity: Some(0),
            amount: Some(0),
            op_type: Some(OpType::Deposit),
            inventory_proof: Some(dummy_proof),
            item_volume: Some(0),
            registry_root: Some(FieldElement::zero()),
            max_capacity: Some(0),
            nonce: Some(0),
            inventory_id: Some(FieldElement::zero()),
        }
    }

    /// The circuit of a transition, with the signal computed from the
    /// commitments to both snapshots and the public values.
    pub fn new(
        old_inventory_root: FieldElement,
        old_volume: u64,
        old_blinding: FieldElement,
        new_inventory_root: FieldElement,
        new_volume: u64,
        new_blinding: FieldElement,
        item_id: u64,
        old_quantity: u64,
        new_quantity: u64,
        amount: u64,
        op_type: OpType,
        inventory_proof: MerkleProof,
        item_volume: u64,
        registry_root: FieldElement,
        max_capacity: u64,
        nonce: u64,
        inventory_id: FieldElement,
    ) -> (c: Self)
        ensures
            c.complete(),
            c.signal_hash->0@ == signal_spec(
                commitment_spec(old_inventory_root@, old_volume as nat, old_blinding@),
                commitment_spec(new_inventory_root@, new_volume as nat, new_blinding@),
                registry_root@,
                max_capacity as nat,
                item_id as nat,
                amount as nat,
                op_type.code(),
                nonce as nat,
                inventory_id@,
            ),
            c.old_inventory_root == Some(old_inventory_root),
            c.old_volume == Some(old_volume),
            c.old_blinding == Some(old_blinding),
            c.new_inventory_root == Some(new_inventory_root),
            c.new_volume == Some(new_volume),
            c.new_blinding == Some(new_blinding),
            c.item_id == Some(item_id),
            c.old_quantity == Some(old_quantity),
            c.new_quantity == Some(new_quantity),
            c.amount == Some(amount),
            c.op_type == Some(op_type),
            c.inventory_proof == Some(inventory_proof),
            c.item_volume == Some(item_volume),
            c.registry_root == Some(registry_root),
            c.max_capacity == Some(max_capacity),
            c.nonce == Some(nonce),
            c.inventory_id == Some(inventory_id),
    {
        let old_commitment = create_smt_commitment(old_inventory_root, old_volume, old_blinding);
        let new_commitment = create_smt_commitment(new_inventory_root, new_volume, new_blinding);
        let signal_hash = compute_signal_hash(
            old_commitment,
            new_commitment,
            registry_root,
            max_capacity,
            item_id,
            amount,
            op_type,
            nonce,
            inventory_id,
        );
        StateTransitionCircuit {
            signal_hash: Some(signal_hash),
            old_inventory_root: Some(old_inventory_root),
            old_volume: Some(old_volume),
            old_blinding: Some(old_blinding),
            new_inventory_root: Some(new_inventory_root),
            new_volume: Some(new_volume),
            new_blinding: Some(new_blinding),
            item_id: Some(item_id),
            old_quantity: Some(old_quantity),
            new_quantity: Some(new_quantity),
            amount: Some(amount),
            op_type: Some(op_type),
            inventory_proof: Some(inventory_proof),
            item_volume: Some(item_volume),
            registry_root: Some(registry_root),
            max_capacity: Some(max_capacity),
            nonce: Some(nonce),
            inventory_id: Some(inventory_id),
        }
    }

    /// The circuit that holds the values of a witness.
    pub fn from_witness(w: TransitionWitness) -> (c: Self)
        ensures
            c.complete(),
            c.filled_by(&w),
    {
        StateTransitionCircuit {
            signal_hash: Some(w.signal_hash),
            old_inventory_root: Some(w.old_inventory_root),
            old_volume: Some(w.old_volume),
            old_blinding: Some(w.old_blinding),
            new_inventory_root: Some(w.new_inventory_root),
            new_volume: Some(w.new_volume),
            new_blinding: Some(w.new_blinding),
            item_id: Some(w.item_id),
            old_quantity: Some(w.old_quantity),
            new_quantity: Some(w.new_quantity),
            amount: Some(w.amount),
            op_type: Some(w.op_type),
            inventory_proof: Some(w.inventory_proof),
            item_volume: Some(w.item_volume),
            registry_root: Some(w.registry_root),
            max_capacity: Some(w.max_capacity),
            nonce: Some(w.nonce),
            inventory_id: Some(w.inventory_id),
        }
    }

    /// The values of the circuit as a witness, if every one of them is
    /// given.
    pub fn witness(&self) -> (w: Option<TransitionWitness>)
        ensures
            w is Some <==> self.complete(),
            w is Some ==> self.filled_by(&w->0),
    {
        let signal_hash = match self.signal_hash {
            Some(v) => v,
            None => {
                return None;
            },
        };
        let old_inventory_root = match self.old_inventory_root {
            Some(v) => v,
            None => {
                return None;
            },
        };
        let old_volume = match self.old_volume {
            Some(v) => v,
            None => {
                return None;
            },
        };
        let old_blinding = match self.old_blinding {
            Some(v) => v,
            None => {
                return None;
            },
        };
        let new_inventory_root = match self.new_inventory_root {
            Some(v) => v,
            None => {
                return None;
            },
        };
        let new_volume = match self.new_volume {
            Some(v) => v,
            None => {
                return None;
            },
        };
        let new_blinding = match self.new_blinding {
            Some(v) => v,
            None => {
                return None;
            },
        };
        let item_id = match self.item_id {
            Some(v) => v,
            None => {
                return None;
            },
        };
        let old_quantity = match self.old_quantity {
            Some(v) => v,
            None => {
                return None;
            },
        };
        let new_quantity = match self.new_quantity {
            Some(v) => v,
            None => {
                return None;
            },
        };
        let amount = match self.amount {
            Some(v) => v,
            None => {
                return None;
            },
        };
        let op_type = match self.op_type {
            Some(v) => v,
            None => {
                return None;
            },
        };
        let inventory_proof = match &self.inventory_proof {
            Some(v) => v.clone(),
            None => {
                return None;
            },
        };
        let item_volume = match self.item_volume {
            Some(v) => v,
            None => {
                return None;
            },
        };
        let registry_root = match self.registry_root {
            Some(v) => v,
            None => {
                return None;
            },
        };
        let max_capacity = match self.max_capacity {
            Some(v) => v,
            None => {
                return None;
            },
        };
        let nonce = match self.nonce {
            Some(v) => v,
            None => {
                return None;
            },
        };
        let inventory_id = match self.inventory_id {
            Some(v) => v,
            None => {
                return None;
            },
        };
        Some(
            TransitionWitness {
                signal_hash,
                old_inventory_root,
                old_volume,
                old_blinding,
                new_inventory_root,
                new_volume,
                new_blinding,
                item_id,
                old_quantity,
                new_quantity,
                amount,
                op_type,
                inventory_proof,
                item_volume,
                registry_root,
                max_capacity,
                nonce,
                inventory_id,
            },
        )
    }

    /// Writes the relation for the values of the circuit into a system. The
    /// proof must be given. Where another value is missing nothing is written
    /// and the error says so. Otherwise the system gets the four public
    /// inputs, the witnesses and all constraints; it is then satisfied just
    /// where it was before and the values meet the relation.
    #[verifier::rlimit(50)]
    pub fn generate_constraints(&self, cs: &mut ConstraintSystem) -> (r: Result<
        (),
        SynthesisError,
    >)
        requires
            old(cs).wf(),
            self.inventory_proof is Some,
        ensures
            final(cs).wf(),
            r is Ok <==> self.complete(),
            r is Err ==> r == Err::<(), SynthesisError>(SynthesisError::AssignmentMissing)
                && *final(cs) == *old(cs),
            r is Ok ==> final(cs).extends(old(cs)) && exists|w: TransitionWitness|
                self.filled_by(&w) && final(cs).spec_public_inputs() == old(
                    cs,
                ).spec_public_inputs() + w.public_inputs_spec() && sat_step(
                    final(cs),
                    old(cs),
                    w.holds(),
                ),
    {
        match self.witness() {
            Some(w) => {
                constrain_transition(cs, &w);
                Ok(())
            },
            None => Err(SynthesisError::AssignmentMissing),
        }
    }
}

} // verus!
