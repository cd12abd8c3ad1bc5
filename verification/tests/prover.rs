use inventory_circuits::field::FieldElement;
use inventory_circuits::prove::{InventoryState, ProveError};
use inventory_circuits::r1cs::ConstraintSystem;
use inventory_circuits::signal::OpType;
use inventory_circuits::smt::tree::DEFAULT_DEPTH;
use inventory_circuits::smt_commitment::create_smt_commitment;
use inventory_circuits::state_transition::{constrain_transition, TransitionWitness};
use inventory_circuits::verify::{single_public_input, state_transition_public_inputs};

fn fe(x: u64) -> FieldElement {
    FieldElement::from_u64(x)
}

fn state() -> InventoryState {
    let mut state = InventoryState::new(fe(12345));
    state.tree.update(42, 100);
    state.current_volume = 500;
    state
}

fn witness(
    state: &InventoryState,
    item_id: u64,
    amount: u64,
    item_volume: u64,
    max_capacity: u64,
    op_type: OpType,
) -> Result<TransitionWitness, ProveError> {
    state.state_transition_witness(
        fe(99999),
        item_id,
        amount,
        item_volume,
        fe(7),
        max_capacity,
        3,
        fe(12345),
        op_type,
    )
}

fn detail(r: Result<TransitionWitness, ProveError>) -> String {
    match r {
        Err(ProveError::InvalidState(s)) => s,
        other => panic!("no invalid state: {:?}", other.map(|_| ())),
    }
}

fn satisfied(w: &TransitionWitness) -> bool {
    let mut cs = ConstraintSystem::new();
    constrain_transition(&mut cs, w);
    cs.is_satisfied()
}

#[test]
fn test_verify_item_exists() {
    // the circuit that the prover builds for a quantity that is there can
    // be met, and its one public input is its public hash
    let state = state();
    let circuit = state.item_exists_circuit(42, 50).unwrap();
    let mut cs = ConstraintSystem::new();
    circuit.generate_constraints(&mut cs).unwrap();
    assert!(cs.is_satisfied());
    assert_eq!(cs.public_inputs(), single_public_input(circuit.public_hash.unwrap()));
}

#[test]
fn test_verify_wrong_hash_fails() {
    let state = state();
    let mut circuit = state.item_exists_circuit(42, 50).unwrap();
    circuit.public_hash = Some(fe(99999));
    let mut cs = ConstraintSystem::new();
    circuit.generate_constraints(&mut cs).unwrap();
    assert!(!cs.is_satisfied());
}

#[test]
fn test_verify_capacity() {
    let mut state = InventoryState::new(fe(12345));
    state.tree.update(1, 100);
    state.current_volume = 500;
    let circuit = state.capacity_circuit(1000).unwrap();
    let mut cs = ConstraintSystem::new();
    circuit.generate_constraints(&mut cs).unwrap();
    assert!(cs.is_satisfied());
    assert_eq!(cs.public_inputs(), single_public_input(circuit.public_hash.unwrap()));
}

#[test]
fn a_new_inventory_is_empty() {
    let state = InventoryState::new(fe(5));
    assert!(state.tree.is_empty());
    assert_eq!(state.tree.depth(), DEFAULT_DEPTH);
    assert_eq!(state.current_volume, 0);
    assert_eq!(state.blinding, fe(5));
    assert_eq!(state.commitment(), create_smt_commitment(state.tree.root(), 0, fe(5)));
    let snapshot = state.snapshot();
    assert_eq!(snapshot.inventory_root, state.tree.root());
    assert_eq!(snapshot.commitment(), state.commitment());
}

#[test]
fn deposit_fifty_of_item_one() {
    // item 1 with quantity 100 and volume 10 each; 50 more under capacity
    // 10000: new quantity 150, new volume 1500
    let mut state = InventoryState::new(fe(1));
    state.tree.update(1, 100);
    state.current_volume = 1000;
    let w = witness(&state, 1, 50, 10, 10000, OpType::Deposit).unwrap();
    assert_eq!(w.old_quantity, 100);
    assert_eq!(w.new_quantity, 150);
    assert_eq!(w.old_volume, 1000);
    assert_eq!(w.new_volume, 1500);
    assert_eq!(w.old_inventory_root, state.tree.root());
    assert_eq!(w.new_blinding, fe(99999));
    assert!(satisfied(&w));
    let mut cs = ConstraintSystem::new();
    constrain_transition(&mut cs, &w);
    assert_eq!(
        cs.public_inputs(),
        state_transition_public_inputs(w.signal_hash, 3, fe(12345), fe(7))
    );
    // the state itself has not moved; apply moves it
    assert_eq!(state.tree.get(1), 100);
    let new_root = w.new_inventory_root;
    state.apply(&w);
    assert_eq!(state.tree.get(1), 150);
    assert_eq!(state.tree.root(), new_root);
    assert_eq!(state.current_volume, 1500);
    assert_eq!(state.blinding, fe(99999));
}

#[test]
fn withdraw_from_the_inventory() {
    let w = witness(&state(), 42, 30, 5, 1000, OpType::Withdraw).unwrap();
    assert_eq!(w.new_quantity, 70);
    assert_eq!(w.new_volume, 350);
    assert!(satisfied(&w));
    let all = witness(&state(), 42, 100, 5, 1000, OpType::Withdraw).unwrap();
    assert_eq!(all.new_quantity, 0);
    assert_eq!(all.new_volume, 0);
    assert!(satisfied(&all));
}

#[test]
fn deposit_into_an_empty_slot() {
    let w = witness(&state(), 7, 3, 1, 1000, OpType::Deposit).unwrap();
    assert_eq!(w.old_quantity, 0);
    assert_eq!(w.new_quantity, 3);
    assert!(satisfied(&w));
}

#[test]
fn an_item_beyond_the_capacity_of_the_tree_is_rejected() {
    assert_eq!(
        detail(witness(&state(), 4096, 1, 1, 1000, OpType::Deposit)),
        "Item id exceeds tree capacity"
    );
    assert!(witness(&state(), 4095, 1, 1, 1000, OpType::Deposit).is_ok());
}

#[test]
fn a_withdrawal_of_more_than_there_is_is_rejected() {
    assert_eq!(
        detail(witness(&state(), 42, 101, 0, 1000, OpType::Withdraw)),
        "Insufficient quantity"
    );
    assert_eq!(
        detail(witness(&state(), 7, 1, 0, 1000, OpType::Withdraw)),
        "Insufficient quantity"
    );
}

#[test]
fn arithmetic_that_does_not_fit_is_rejected() {
    assert_eq!(
        detail(witness(&state(), 42, u64::MAX - 99, 0, 1000, OpType::Deposit)),
        "Quantity overflow"
    );
    assert_eq!(
        detail(witness(&state(), 42, 2, u64::MAX, u64::MAX, OpType::Deposit)),
        "Volume overflow"
    );
    assert_eq!(
        detail(witness(&state(), 42, 1, u64::MAX - 499, u64::MAX, OpType::Deposit)),
        "Volume overflow"
    );
    assert_eq!(
        detail(witness(&state(), 42, 2, 251, 1000, OpType::Withdraw)),
        "Volume underflow"
    );
    assert!(witness(&state(), 42, 2, 250, 1000, OpType::Withdraw).is_ok());
}

#[test]
fn a_volume_above_the_capacity_is_rejected() {
    assert_eq!(
        detail(witness(&state(), 42, 1, 1, 500, OpType::Deposit)),
        "Capacity exceeded"
    );
    let at = witness(&state(), 42, 1, 1, 501, OpType::Deposit).unwrap();
    assert_eq!(at.new_volume, 501);
    assert!(satisfied(&at));
}

#[test]
fn the_checks_are_made_in_order() {
    // beyond the capacity of the tree and more than there is: the item
    // comes first
    assert_eq!(
        detail(witness(&state(), 5000, 1, 1, 0, OpType::Withdraw)),
        "Item id exceeds tree capacity"
    );
    // more than there is and above the capacity: the quantity comes first
    assert_eq!(
        detail(witness(&state(), 42, 101, 0, 0, OpType::Withdraw)),
        "Insufficient quantity"
    );
}

#[test]
fn a_quantity_beyond_the_range_is_rejected() {
    let limit = 1u64 << 32;
    assert_eq!(
        detail(witness(&state(), 42, limit - 100, 0, 1000, OpType::Deposit)),
        "Quantity overflow"
    );
    let w = witness(&state(), 42, limit - 101, 0, 1000, OpType::Deposit).unwrap();
    assert_eq!(w.new_quantity, limit - 1);
    assert!(satisfied(&w));
    // a withdrawal that leaves too much is rejected too
    let mut rich = state();
    rich.tree.update(42, limit + 5);
    assert_eq!(
        detail(witness(&rich, 42, 5, 0, 1000, OpType::Withdraw)),
        "Quantity overflow"
    );
    let w = witness(&rich, 42, 6, 0, 1000, OpType::Withdraw).unwrap();
    assert_eq!(w.new_quantity, limit - 1);
    assert!(satisfied(&w));
}

#[test]
fn a_volume_beyond_the_range_is_rejected() {
    let limit = 1u64 << 32;
    assert_eq!(
        detail(witness(&state(), 42, 1, limit - 500, limit, OpType::Deposit)),
        "Volume overflow"
    );
    let w = witness(&state(), 42, 1, limit - 501, limit, OpType::Deposit).unwrap();
    assert_eq!(w.new_volume, limit - 1);
    assert!(satisfied(&w));
}

#[test]
fn a_capacity_too_far_above_the_volume_is_rejected() {
    let limit = 1u64 << 32;
    assert_eq!(
        detail(witness(&state(), 42, 1, 1, 501 + limit, OpType::Deposit)),
        "Capacity out of range"
    );
    assert_eq!(
        detail(witness(&state(), 42, 1, 1, u64::MAX, OpType::Deposit)),
        "Capacity out of range"
    );
    let w = witness(&state(), 42, 1, 1, 500 + limit, OpType::Deposit).unwrap();
    assert_eq!(w.new_volume, 501);
    assert!(satisfied(&w));
}

#[test]
fn a_withdrawal_of_all_and_a_deposit_after_it_can_both_be_met() {
    let mut state = state();
    state.tree.update(3, 9);
    let all = witness(&state, 42, 100, 5, 1000, OpType::Withdraw).unwrap();
    assert_eq!(all.new_quantity, 0);
    assert!(satisfied(&all));
    state.apply(&all);
    assert_eq!(state.tree.get(42), 0);
    assert_eq!(state.tree.len(), 1);
    assert_eq!(state.tree.root(), all.new_inventory_root);
    let mut never = InventoryState::new(fe(12345));
    never.tree.update(3, 9);
    assert_eq!(state.tree.root(), never.tree.root());
    let again = witness(&state, 42, 4, 5, 1000, OpType::Deposit).unwrap();
    assert_eq!(again.old_quantity, 0);
    assert_eq!(again.new_quantity, 4);
    assert!(satisfied(&again));
    state.apply(&again);
    assert_eq!(state.tree.get(42), 4);
    assert_eq!(state.tree.root(), again.new_inventory_root);
}

#[test]
fn the_membership_circuit_of_an_item_that_is_not_held_can_be_met_for_zero() {
    let state = state();
    let c = state.item_exists_circuit(7, 0).unwrap();
    assert_eq!(c.actual_quantity, Some(0));
    let mut cs = ConstraintSystem::new();
    c.generate_constraints(&mut cs).unwrap();
    assert!(cs.is_satisfied());
    match state.item_exists_circuit(7, 1) {
        Err(ProveError::InvalidState(s)) => assert_eq!(s, "Insufficient quantity"),
        _ => panic!("no invalid state"),
    }
}

#[test]
fn the_membership_circuit_is_rejected_where_less_is_held() {
    let state = state();
    match state.item_exists_circuit(42, 101) {
        Err(ProveError::InvalidState(s)) => assert_eq!(s, "Insufficient quantity"),
        _ => panic!("no invalid state"),
    }
    match state.item_exists_circuit(4096, 0) {
        Err(ProveError::InvalidState(s)) => assert_eq!(s, "Item id exceeds tree capacity"),
        _ => panic!("no invalid state"),
    }
    let exact = state.item_exists_circuit(42, 100).unwrap();
    assert_eq!(exact.actual_quantity, Some(100));
    assert_eq!(exact.min_quantity, Some(100));
}

#[test]
fn the_capacity_circuit_is_rejected_above_the_capacity() {
    let state = state();
    match state.capacity_circuit(499) {
        Err(ProveError::InvalidState(s)) => assert_eq!(s, "Capacity exceeded"),
        _ => panic!("no invalid state"),
    }
    let at = state.capacity_circuit(500).unwrap();
    assert_eq!(at.max_capacity, Some(500));
    assert_eq!(at.current_volume, Some(500));
}

#[test]
fn the_public_inputs_keep_their_order() {
    assert_eq!(
        state_transition_public_inputs(fe(1), 2, fe(3), fe(4)),
        vec![fe(1), fe(2), fe(3), fe(4)]
    );
    assert_eq!(single_public_input(fe(9)), vec![fe(9)]);
}
