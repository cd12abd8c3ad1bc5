//! The prover's side of the relations: the inventory as the prover holds it,
//! and the checks that are made before any constraint is written.
//!
//! A witness that cannot meet its relation would cost a proof attempt that is
//! bound to fail. The functions here reject such requests with a typed error:
//! an item beyond the capacity of the tree, a withdrawal of more than there
//! is, a quantity or a volume that does not fit in the range of the relation,
//! a volume above the capacity, a capacity too far above the volume. What
//! they hand out meets its relation.

use crate::capacity_smt::CapacitySMTCircuit;
use crate::field::{fmul, fsub, modulus, FieldElement};
use crate::item_exists_smt::ItemExistsSMTCircuit;
use crate::range_check::{fits_range, RANGE_BITS};
use crate::signal::{compute_signal_hash, OpType};
use crate::smt::tree::{
    lemma_proof_leads_to_new_root, lemma_proof_leads_to_root, proof_indices_spec,
    proof_path_spec, root_spec, set_quantity, SparseMerkleTree, DEFAULT_DEPTH,
};
use crate::smt_commitment::{commitment_spec, create_smt_commitment};
use crate::state_transition::{amounts_hold, TransitionWitness};
use vstd::arithmetic::div_mod::lemma_small_mod;
use vstd::arithmetic::power2::pow2;
use vstd::prelude::*;
use vstd::string::StringExecFns;

verus! {

/// What can go wrong while a proof is generated.
#[derive(Debug)]
pub enum ProveError {
    /// The proof system could not produce a proof.
    ProofGeneration(String),
    /// The requested operation is not valid on the inventory as it stands.
    InvalidState(String),
    /// A proof or an input could not be turned into bytes.
    Serialization(String),
}

impl ProveError {
    /// The text that goes before the detail of each error.
    pub open spec fn prefix_spec(self) -> Seq<char> {
        match self {
            ProveError::ProofGeneration(_) => "Proof generation failed: "@,
            ProveError::InvalidState(_) => "Invalid inventory state: "@,
            ProveError::Serialization(_) => "Serialization failed: "@,
        }
    }

    /// The detail that the error carries.
    pub open spec fn detail_spec(self) -> Seq<char> {
        match self {
            ProveError::ProofGeneration(s) => s@,
            ProveError::InvalidState(s) => s@,
            ProveError::Serialization(s) => s@,
        }
    }

    /// The error as a line of text.
    pub fn message(&self) -> (out: String)
        ensures
            out@ == self.prefix_spec() + self.detail_spec(),
    {
        match self {
            ProveError::ProofGeneration(s) => String::from_str("Proof generation failed: ").concat(
                s.as_str(),
            ),
            ProveError::InvalidState(s) => String::from_str("Invalid inventory state: ").concat(
                s.as_str(),
            ),
            ProveError::Serialization(s) => String::from_str("Serialization failed: ").concat(
                s.as_str(),
            ),
        }
    }
}

/// Why a request is rejected before any constraint is written.
#[derive(Clone, Copy, Debug, PartialEq, Eq, Structural)]
pub enum Rejection {
    /// The item lies beyond the capacity of the tree.
    ItemOutOfRange,
    /// More is asked for, or taken out, than there is.
    InsufficientQuantity,
    /// The new quantity does not fit in the range of the relation.
    QuantityOverflow,
    /// The volume of the amount does not fit in 64 bits, or the new volume
    /// does not fit in the range of the relation.
    VolumeOverflow,
    /// More volume is taken out than there is.
    VolumeUnderflow,
    /// The volume exceeds the capacity.
    CapacityExceeded,
    /// The capacity lies above the new volume by more than fits in the range
    /// of the relation.
    CapacityOutOfRange,
}

impl Rejection {
    /// The detail of the error that a rejection becomes.
    pub open spec fn detail_spec(self) -> Seq<char> {
        match self {
            Rejection::ItemOutOfRange => "Item id exceeds tree capacity"@,
            Rejection::InsufficientQuantity => "Insufficient quantity"@,
            Rejection::QuantityOverflow => "Quantity overflow"@,
            Rejection::VolumeOverflow => "Volume overflow"@,
            Rejection::VolumeUnderflow => "Volume underflow"@,
            Rejection::CapacityExceeded => "Capacity exceeded"@,
            Rejection::CapacityOutOfRange => "Capacity out of range"@,
        }
    }

    /// The error that a rejection becomes: an invalid state with the detail
    /// of the rejection.
    pub fn to_error(self) -> (e: ProveError)
        ensures
            e matches ProveError::InvalidState(s) && s@ == self.detail_spec(),
    {
        let detail = match self {
            Rejection::ItemOutOfRange => String::from_str("Item id exceeds tree capacity"),
            Rejection::InsufficientQuantity => String::from_str("Insufficient quantity"),
            Rejection::QuantityOverflow => String::from_str("Quantity overflow"),
            Rejection::VolumeOverflow => String::from_str("Volume overflow"),
            Rejection::VolumeUnderflow => String::from_str("Volume underflow"),
            Rejection::CapacityExceeded => String::from_str("Capacity exceeded"),
            Rejection::CapacityOutOfRange => String::from_str("Capacity out of range"),
        };
        ProveError::InvalidState(detail)
    }
}

/// Whether an error is the one that a rejection becomes.
pub open spec fn is_rejection(e: ProveError, why: Rejection) -> bool {
    e matches ProveError::InvalidState(s) && s@ == why.detail_spec()
}

/// Why a state transition is rejected, if it is. The checks are made in this
/// order: the item, the quantity, the volume, the capacity. The range of the
/// relation is what fits in `RANGE_BITS` bits.
pub open spec fn transition_rejection(
    in_capacity: bool,
    old_quantity: u64,
    old_volume: u64,
    amount: u64,
    item_volume: u64,
    max_capacity: u64,
    op_type: OpType,
) -> Option<Rejection> {
    let delta = item_volume as int * amount as int;
    if !in_capacity {
        Some(Rejection::ItemOutOfRange)
    } else if op_type == OpType::Withdraw && amount > old_quantity {
        Some(Rejection::InsufficientQuantity)
    } else if new_amount(op_type, old_quantity as int, amount as int) >= pow2(RANGE_BITS as nat) {
        Some(Rejection::QuantityOverflow)
    } else if delta > u64::MAX {
        Some(Rejection::VolumeOverflow)
    } else if op_type == OpType::Withdraw && delta > old_volume {
        Some(Rejection::VolumeUnderflow)
    } else if new_amount(op_type, old_volume as int, delta) >= pow2(RANGE_BITS as nat) {
        Some(Rejection::VolumeOverflow)
    } else if new_amount(op_type, old_volume as int, delta) > max_capacity {
        Some(Rejection::CapacityExceeded)
    } else if max_capacity - new_amount(op_type, old_volume as int, delta) >= pow2(
        RANGE_BITS as nat,
    ) {
        Some(Rejection::CapacityOutOfRange)
    } else {
        None
    }
}

/// What an operation makes of a number, over the integers.
pub open spec fn new_amount(op_type: OpType, before: int, delta: int) -> int {
    match op_type {
        OpType::Deposit => before + delta,
        OpType::Withdraw => before - delta,
    }
}

/// An inventory as its prover holds it: the tree of its items, its volume and
/// the blinding factor of its commitment.
#[derive(Clone)]
pub struct InventoryState {
    pub tree: SparseMerkleTree,
    pub current_volume: u64,
    pub blinding: FieldElement,
}

impl InventoryState {
    /// The invariant of the state: that of its tree.
    pub open spec fn wf(&self) -> bool {
        self.tree.wf()
    }

    /// The root of the tree.
    pub open spec fn root_spec(&self) -> nat {
        root_spec(self.tree@, self.tree.spec_depth())
    }

    /// The commitment to the inventory.
    pub open spec fn commitment_spec(&self) -> nat {
        commitment_spec(self.root_spec(), self.current_volume as nat, self.blinding@)
    }

    /// An empty inventory of the default depth.
    pub fn new(blinding: FieldElement) -> (s: Self)
        ensures
            s.wf(),
            s.tree@ == Map::<u64, u64>::empty(),
            s.tree.spec_depth() == DEFAULT_DEPTH,
            s.current_volume == 0,
            s.blinding == blinding,
    {
        InventoryState { tree: SparseMerkleTree::new(DEFAULT_DEPTH), current_volume: 0, blinding }
    }

    /// The commitment to the inventory.
    pub fn commitment(&self) -> (c: FieldElement)
        requires
            self.wf(),
        ensures
            c@ == self.commitment_spec(),
    {
        create_smt_commitment(self.tree.root(), self.current_volume, self.blinding)
    }

    /// The snapshot that the commitment is made of.
    pub fn snapshot(&self) -> (s: crate::smt_commitment::InventoryState)
        requires
            self.wf(),
        ensures
            s.inventory_root@ == self.root_spec(),
            s.current_volume == self.current_volume,
            s.blinding == self.blinding,
    {
        crate::smt_commitment::InventoryState::new(
            self.tree.root(),
            self.current_volume,
            self.blinding,
        )
    }

    /// The witness of one deposit or withdrawal on this inventory, or the
    /// error that says why there is none. The inventory itself stays as it
    /// is; the witness holds the snapshot that the operation leads to.
    ///
    /// A witness that comes back meets the whole relation: the part on the
    /// tree, the part on quantities, volumes and capacity, and the signal.
    #[verifier::rlimit(50)]
    pub fn state_transition_witness(
        &self,
        new_blinding: FieldElement,
        item_id: u64,
        amount: u64,
        item_volume: u64,
        registry_root: FieldElement,
        max_capacity: u64,
        nonce: u64,
        inventory_id: FieldElement,
        op_type: OpType,
    ) -> (r: Result<TransitionWitness, ProveError>)
        requires
            self.wf(),
        ensures
            match transition_rejection(
                (item_id as nat) < pow2(self.tree.spec_depth()),
                self.tree.quantity_spec(item_id),
                self.current_volume,
                amount,
                item_volume,
                max_capacity,
                op_type,
            ) {
                Some(why) => r is Err && is_rejection(r->Err_0, why),
                None => r is Ok && ({
                    let w = r->Ok_0;
                    let delta = item_volume as int * amount as int;
                    &&& w.item_id == item_id
                    &&& w.amount == amount
                    &&& w.op_type == op_type
                    &&& w.item_volume == item_volume
                    &&& w.registry_root == registry_root
                    &&& w.max_capacity == max_capacity
                    &&& w.nonce == nonce
                    &&& w.inventory_id == inventory_id
                    &&& w.old_inventory_root@ == self.root_spec()
                    &&& w.old_volume == self.current_volume
                    &&& w.old_blinding == self.blinding
                    &&& w.old_quantity == self.tree.quantity_spec(item_id)
                    &&& w.new_quantity == new_amount(
                        op_type,
                        w.old_quantity as int,
                        amount as int,
                    )
                    &&& w.new_volume == new_amount(op_type, w.old_volume as int, delta)
                    &&& w.new_blinding == new_blinding
                    &&& w.inventory_proof.spec_path() == proof_path_spec(
                        self.tree@,
                        item_id as nat,
                        self.tree.spec_depth(),
                    )
                    &&& w.inventory_proof.spec_indices() == proof_indices_spec(
                        item_id as nat,
                        self.tree.spec_depth(),
                    )
                    &&& w.new_inventory_root@ == root_spec(
                        set_quantity(self.tree@, item_id, w.new_quantity),
                        self.tree.spec_depth(),
                    )
                    &&& w.holds()
                }),
            },
    {
        if !self.tree.in_capacity(item_id) {
            return Err(Rejection::ItemOutOfRange.to_error());
        }
        let old_quantity = self.tree.get(item_id);
        let old_volume = self.current_volume;
        let (new_quantity, new_volume) = match checked_amounts(
            old_quantity,
            old_volume,
            amount,
            item_volume,
            max_capacity,
            op_type,
        ) {
            Ok(amounts) => amounts,
            Err(why) => {
                return Err(why.to_error());
            },
        };
        let old_root = self.tree.root();
        let inventory_proof = self.tree.get_proof(item_id);
        let new_root = inventory_proof.compute_root(item_id, new_quantity);
        let old_commitment = create_smt_commitment(old_root, old_volume, self.blinding);
        let new_commitment = create_smt_commitment(new_root, new_volume, new_blinding);
        let signal_hash = compute_signal_hash(
            old_commitment,
            new_commitment,
            registry_root,
            max_capacity,
            item_id,
            amount,
            op_type,
            nonce,
            inventory_id,
        );
        let w = TransitionWitness {
            signal_hash,
            old_inventory_root: old_root,
            old_volume,
            old_blinding: self.blinding,
            new_inventory_root: new_root,
            new_volume,
            new_blinding,
            item_id,
            old_quantity,
            new_quantity,
            amount,
            op_type,
            inventory_proof,
            item_volume,
            registry_root,
            max_capacity,
            nonce,
            inventory_id,
        };
        proof {
            let depth = self.tree.spec_depth();
            lemma_proof_leads_to_new_root(self.tree@, item_id, new_quantity, depth);
            lemma_proof_leads_to_root(self.tree@, item_id, depth);
            lemma_accepted_can_be_met(
                op_type,
                old_quantity,
                old_volume,
                amount,
                item_volume,
                max_capacity,
                new_quantity,
                new_volume,
            );
        }
        Ok(w)
    }

    /// The circuit of the membership relation for an item of this inventory
    /// and a quantity asked for, or the error that says why there is none:
    /// the item lies beyond the capacity of the tree, or the inventory holds
    /// less than is asked for. A circuit that comes back meets the relation.
    #[verifier::rlimit(50)]
    pub fn item_exists_circuit(&self, item_id: u64, min_quantity: u64) -> (r: Result<
        ItemExistsSMTCircuit,
        ProveError,
    >)
        requires
            self.wf(),
        ensures
            !((item_id as nat) < pow2(self.tree.spec_depth())) ==> r is Err && is_rejection(
                r->Err_0,
                Rejection::ItemOutOfRange,
            ),
            (item_id as nat) < pow2(self.tree.spec_depth()) && self.tree.quantity_spec(item_id)
                < min_quantity ==> r is Err && is_rejection(
                r->Err_0,
                Rejection::InsufficientQuantity,
            ),
            (item_id as nat) < pow2(self.tree.spec_depth()) && self.tree.quantity_spec(item_id)
                >= min_quantity ==> r is Ok && ({
                let c = r->Ok_0;
                &&& c.complete()
                &&& c.proof is Some
                &&& c.item_id == Some(item_id)
                &&& c.min_quantity == Some(min_quantity)
                &&& c.actual_quantity == Some(self.tree.quantity_spec(item_id))
                &&& c.current_volume == Some(self.current_volume)
                &&& c.blinding == Some(self.blinding)
                &&& c.inventory_root->0@ == self.root_spec()
                &&& c.public_hash->0@ == crate::item_exists_smt::item_exists_hash_spec(
                    self.commitment_spec(),
                    item_id as nat,
                    min_quantity as nat,
                )
                &&& c.proof->0.spec_path() == proof_path_spec(
                    self.tree@,
                    item_id as nat,
                    self.tree.spec_depth(),
                )
                &&& c.proof->0.spec_indices() == proof_indices_spec(
                    item_id as nat,
                    self.tree.spec_depth(),
                )
                &&& c.holds()
            }),
    {
        if !self.tree.in_capacity(item_id) {
            return Err(Rejection::ItemOutOfRange.to_error());
        }
        let actual_quantity = self.tree.get(item_id);
        if actual_quantity < min_quantity {
            return Err(Rejection::InsufficientQuantity.to_error());
        }
        let root = self.tree.root();
        let mp = self.tree.get_proof(item_id);
        proof {
            lemma_proof_leads_to_root(self.tree@, item_id, self.tree.spec_depth());
        }
        Ok(
            ItemExistsSMTCircuit::new(
                root,
                self.current_volume,
                self.blinding,
                item_id,
                actual_quantity,
                min_quantity,
                mp,
            ),
        )
    }

    /// The circuit of the capacity relation for this inventory and a
    /// capacity, or the error that says that the volume exceeds the
    /// capacity. A circuit that comes back meets the relation.
    pub fn capacity_circuit(&self, max_capacity: u64) -> (r: Result<CapacitySMTCircuit, ProveError>)
        requires
            self.wf(),
        ensures
            self.current_volume > max_capacity ==> r is Err && is_rejection(
                r->Err_0,
                Rejection::CapacityExceeded,
            ),
            self.current_volume <= max_capacity ==> r is Ok && ({
                let c = r->Ok_0;
                &&& c.complete()
                &&& c.holds()
                &&& c.max_capacity == Some(max_capacity)
                &&& c.current_volume == Some(self.current_volume)
                &&& c.blinding == Some(self.blinding)
                &&& c.inventory_root->0@ == self.root_spec()
                &&& c.public_hash->0@ == crate::capacity_smt::capacity_hash_spec(
                    self.commitment_spec(),
                    max_capacity as nat,
                )
            }),
    {
        if self.current_volume > max_capacity {
            return Err(Rejection::CapacityExceeded.to_error());
        }
        Ok(
            CapacitySMTCircuit::new(
                self.tree.root(),
                self.current_volume,
                self.blinding,
                max_capacity,
            ),
        )
    }

    /// Moves the inventory on by the operation of a witness: writes the new
    /// quantity of the item into the tree, and takes the new volume and the
    /// new blinding factor. The item must lie within the capacity. An item
    /// whose new quantity is zero leaves the tree.
    pub fn apply(&mut self, w: &TransitionWitness)
        requires
            old(self).wf(),
            (w.item_id as nat) < pow2(old(self).tree.spec_depth()),
        ensures
            final(self).wf(),
            final(self).tree.spec_depth() == old(self).tree.spec_depth(),
            final(self).tree@ == set_quantity(old(self).tree@, w.item_id, w.new_quantity),
            final(self).current_volume == w.new_volume,
            final(self).blinding == w.new_blinding,
    {
        self.tree.update(w.item_id, w.new_quantity);
        self.current_volume = w.new_volume;
        self.blinding = w.new_blinding;
    }
}

/// The new quantity and the new volume of an operation on an item within
/// the capacity of the tree, or why the operation is rejected.
fn checked_amounts(
    old_quantity: u64,
    old_volume: u64,
    amount: u64,
    item_volume: u64,
    max_capacity: u64,
    op_type: OpType,
) -> (r: Result<(u64, u64), Rejection>)
    ensures
        match transition_rejection(
            true,
            old_quantity,
            old_volume,
            amount,
            item_volume,
            max_capacity,
            op_type,
        ) {
            Some(why) => r == Err::<(u64, u64), Rejection>(why),
            None => r is Ok && r->Ok_0.0 == new_amount(op_type, old_quantity as int, amount as int)
                && r->Ok_0.1 == new_amount(
                op_type,
                old_volume as int,
                item_volume as int * amount as int,
            ),
        },
{
    proof {
        vstd::arithmetic::power2::lemma2_to64();
    }
    let new_quantity = match op_type {
        OpType::Withdraw => {
            if amount > old_quantity {
                return Err(Rejection::InsufficientQuantity);
            }
            old_quantity - amount
        },
        OpType::Deposit => {
            match old_quantity.checked_add(amount) {
                Some(q) => q,
                None => {
                    return Err(Rejection::QuantityOverflow);
                },
            }
        },
    };
    if !fits_range(new_quantity) {
        return Err(Rejection::QuantityOverflow);
    }
    let delta = match item_volume.checked_mul(amount) {
        Some(d) => d,
        None => {
            return Err(Rejection::VolumeOverflow);
        },
    };
    let new_volume = match op_type {
        OpType::Deposit => {
            match old_volume.checked_add(delta) {
                Some(v) => v,
                None => {
                    return Err(Rejection::VolumeOverflow);
                },
            }
        },
        OpType::Withdraw => {
            if delta > old_volume {
                return Err(Rejection::VolumeUnderflow);
            }
            old_volume - delta
        },
    };
    if !fits_range(new_volume) {
        return Err(Rejection::VolumeOverflow);
    }
    if new_volume > max_capacity {
        return Err(Rejection::CapacityExceeded);
    }
    if !fits_range(max_capacity - new_volume) {
        return Err(Rejection::CapacityOutOfRange);
    }
    Ok((new_quantity, new_volume))
}

/// A request that is not refused can be met: where the checks reject
/// nothing, the new quantity and the new volume over the integers meet the
/// part of the relation that speaks of quantities, volumes and capacity.
pub proof fn lemma_accepted_can_be_met(
    op_type: OpType,
    old_quantity: u64,
    old_volume: u64,
    amount: u64,
    item_volume: u64,
    max_capacity: u64,
    new_quantity: u64,
    new_volume: u64,
)
    requires
        transition_rejection(
            true,
            old_quantity,
            old_volume,
            amount,
            item_volume,
            max_capacity,
            op_type,
        ) is None,
        new_quantity == new_amount(op_type, old_quantity as int, amount as int),
        new_volume == new_amount(op_type, old_volume as int, item_volume as int * amount as int),
    ensures
        amounts_hold(
            op_type.code(),
            old_quantity as nat,
            new_quantity as nat,
            amount as nat,
            old_volume as nat,
            new_volume as nat,
            item_volume as nat,
            max_capacity as nat,
        ),
{
    lemma_operation_in_field(op_type, old_quantity, amount, new_quantity);
    lemma_volume_in_field(op_type, old_volume, item_volume, amount, new_volume);
    crate::range_check::lemma_small_difference(max_capacity as nat, new_volume as nat);
}

/// A difference in the field of two numbers below two to the 128: the
/// difference over the integers where the first is no less than the second,
/// and a number of two to the 128 or more where it is less.
proof fn lemma_difference_in_field(a: nat, b: nat)
    requires
        a < 0x1_0000_0000_0000_0000_0000_0000_0000_0000,
        b < 0x1_0000_0000_0000_0000_0000_0000_0000_0000,
    ensures
        b <= a ==> fsub(a, b) == a - b,
        a < b ==> fsub(a, b) >= 0x1_0000_0000_0000_0000_0000_0000_0000_0000,
{
    let m = modulus() as int;
    if a >= b {
        lemma_small_mod((a - b) as nat, modulus());
    } else {
        vstd::arithmetic::div_mod::lemma_mod_multiples_vanish(1, a as int - b as int, m);
        lemma_small_mod((a + modulus() - b) as nat, modulus());
    }
}

/// A request is refused only where it is doomed: where the checks reject an
/// operation on an item within the capacity of the tree, no new quantity and
/// no new volume meet the part of the relation that speaks of quantities,
/// volumes and capacity.
pub proof fn lemma_rejected_is_doomed(
    op_type: OpType,
    old_quantity: u64,
    old_volume: u64,
    amount: u64,
    item_volume: u64,
    max_capacity: u64,
    new_quantity: nat,
    new_volume: nat,
)
    requires
        transition_rejection(
            true,
            old_quantity,
            old_volume,
            amount,
            item_volume,
            max_capacity,
            op_type,
        ) is Some,
    ensures
        !amounts_hold(
            op_type.code(),
            old_quantity as nat,
            new_quantity,
            amount as nat,
            old_volume as nat,
            new_volume,
            item_volume as nat,
            max_capacity as nat,
        ),
{
    vstd::arithmetic::power2::lemma2_to64();
    let delta = item_volume as nat * amount as nat;
    assert(delta == item_volume as int * amount as int) by (nonlinear_arith)
        requires
            delta == item_volume as nat * amount as nat,
    ;
    assert(delta <= 0xffff_ffff_ffff_ffff * 0xffff_ffff_ffff_ffff) by (nonlinear_arith)
        requires
            delta == item_volume as nat * amount as nat,
            item_volume <= 0xffff_ffff_ffff_ffff,
            amount <= 0xffff_ffff_ffff_ffff,
    ;
    lemma_small_mod(delta, modulus());
    assert(fmul(item_volume as nat, amount as nat) == delta);
    lemma_small_mod((old_quantity + amount) as nat, modulus());
    lemma_small_mod((old_volume + delta) as nat, modulus());
    lemma_difference_in_field(old_quantity as nat, amount as nat);
    lemma_difference_in_field(old_volume as nat, delta);
    if new_volume < 0x1_0000_0000 {
        lemma_difference_in_field(max_capacity as nat, new_volume);
    }
}

/// The sum or difference of two quantities over the integers is their sum or
/// difference in the field, where it fits in 64 bits.
proof fn lemma_operation_in_field(op_type: OpType, before: u64, delta: u64, after: u64)
    requires
        after == new_amount(op_type, before as int, delta as int),
    ensures
        after as nat == crate::state_transition::expected_after(
            op_type.code(),
            before as nat,
            delta as nat,
        ),
{
    lemma_small_mod(after as nat, modulus());
}

/// The new volume over the integers is the new volume in the field, where
/// the volume of the amount and the new volume fit in 64 bits.
proof fn lemma_volume_in_field(
    op_type: OpType,
    before: u64,
    item_volume: u64,
    amount: u64,
    after: u64,
)
    requires
        item_volume as int * amount as int <= u64::MAX,
        after == new_amount(op_type, before as int, item_volume as int * amount as int),
    ensures
        after as nat == crate::state_transition::expected_after(
            op_type.code(),
            before as nat,
            fmul(item_volume as nat, amount as nat),
        ),
{
    let delta = (item_volume as int * amount as int) as nat;
    assert(item_volume as nat * amount as nat == delta) by (nonlinear_arith)
        requires
            delta == item_volume as int * amount as int,
    ;
    lemma_small_mod(delta, modulus());
    lemma_small_mod(after as nat, modulus());
}

} // verus!
