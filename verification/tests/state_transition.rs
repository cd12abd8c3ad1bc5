use inventory_circuits::field::FieldElement;
use inventory_circuits::r1cs::{ConstraintSystem, SynthesisError};
use inventory_circuits::signal::{compute_signal_hash, OpType};
use inventory_circuits::smt::merkle_proof::MerkleProof;
use inventory_circuits::smt::tree::{SparseMerkleTree, DEFAULT_DEPTH};
use inventory_circuits::smt_commitment::create_smt_commitment;
use inventory_circuits::state_transition::{constrain_transition, StateTransitionCircuit};

fn fe(x: u64) -> FieldElement {
    FieldElement::from_u64(x)
}

struct Case {
    start: Vec<(u64, u64)>,
    item_id: u64,
    old_quantity: u64,
    new_quantity: u64,
    written: u64,
    amount: u64,
    op_type: OpType,
    item_volume: u64,
    old_volume: u64,
    new_volume: u64,
    max_capacity: u64,
}

fn deposit_fifty() -> Case {
    Case {
        start: vec![(1, 100)],
        item_id: 1,
        old_quantity: 100,
        new_quantity: 150,
        written: 150,
        amount: 50,
        op_type: OpType::Deposit,
        item_volume: 10,
        old_volume: 1000,
        new_volume: 1500,
        max_capacity: 10000,
    }
}

fn circuit(c: &Case) -> StateTransitionCircuit {
    let mut tree = SparseMerkleTree::from_items(&c.start, DEFAULT_DEPTH);
    let old_root = tree.root();
    let proof = tree.get_proof(c.item_id);
    tree.update(c.item_id, c.written);
    let new_root = tree.root();
    StateTransitionCircuit::new(
        old_root,
        c.old_volume,
        fe(12345),
        new_root,
        c.new_volume,
        fe(67890),
        c.item_id,
        c.old_quantity,
        c.new_quantity,
        c.amount,
        c.op_type,
        proof,
        c.item_volume,
        fe(99999),
        c.max_capacity,
        0,
        fe(12345678),
    )
}

fn satisfied(c: &Case) -> bool {
    let mut cs = ConstraintSystem::new();
    circuit(c).generate_constraints(&mut cs).unwrap();
    cs.is_satisfied()
}

#[test]
fn test_state_transition_deposit() {
    let mut cs = ConstraintSystem::new();
    circuit(&deposit_fifty()).generate_constraints(&mut cs).unwrap();

    assert!(cs.is_satisfied());
    println!("StateTransition (deposit) constraints: {}", cs.num_constraints());
}

#[test]
fn test_state_transition_withdraw() {
    let c = Case {
        new_quantity: 70,
        written: 70,
        amount: 30,
        op_type: OpType::Withdraw,
        new_volume: 700,
        ..deposit_fifty()
    };
    assert!(satisfied(&c));
}

#[test]
fn test_state_transition_new_item() {
    let c = Case {
        start: vec![],
        item_id: 42,
        old_quantity: 0,
        new_quantity: 100,
        written: 100,
        amount: 100,
        op_type: OpType::Deposit,
        item_volume: 5,
        old_volume: 0,
        new_volume: 500,
        max_capacity: 10000,
    };
    assert!(satisfied(&c));
}

#[test]
fn test_state_transition_wrong_amount() {
    let c = Case { amount: 60, ..deposit_fifty() };
    assert!(!satisfied(&c));
}

#[test]
fn test_state_transition_wrong_volume() {
    let c = Case { new_volume: 1600, ..deposit_fifty() };
    assert!(!satisfied(&c));
}

#[test]
fn the_public_inputs_are_signal_nonce_inventory_and_registry_root() {
    let circuit = circuit(&deposit_fifty());
    let mut cs = ConstraintSystem::new();
    circuit.generate_constraints(&mut cs).unwrap();
    assert_eq!(
        cs.public_inputs(),
        vec![circuit.signal_hash.unwrap(), fe(0), fe(12345678), fe(99999)]
    );
    assert_eq!(cs.num_instance_variables(), 5);
}

#[test]
fn the_signal_of_a_new_circuit_binds_both_commitments() {
    let c = deposit_fifty();
    let circuit = circuit(&c);
    let old_commitment =
        create_smt_commitment(circuit.old_inventory_root.unwrap(), c.old_volume, fe(12345));
    let new_commitment =
        create_smt_commitment(circuit.new_inventory_root.unwrap(), c.new_volume, fe(67890));
    let expected = compute_signal_hash(
        old_commitment,
        new_commitment,
        fe(99999),
        c.max_capacity,
        c.item_id,
        c.amount,
        c.op_type,
        0,
        fe(12345678),
    );
    assert_eq!(circuit.signal_hash, Some(expected));
}

#[test]
fn withdrawing_more_than_there_is_cannot_be_met() {
    // old 50, amount 100: the new quantity wraps round in the field
    let c = Case {
        start: vec![(1, 50)],
        old_quantity: 50,
        new_quantity: 0,
        written: 0,
        amount: 100,
        op_type: OpType::Withdraw,
        item_volume: 0,
        old_volume: 1000,
        new_volume: 1000,
        ..deposit_fifty()
    };
    assert!(!satisfied(&c));
    // whatever new quantity of 64 bits is claimed
    for claimed in [50u64, 1, u64::MAX - 49, u64::MAX] {
        let c = Case { new_quantity: claimed, written: claimed, ..c.clone_case() };
        assert!(!satisfied(&c), "claimed {}", claimed);
    }
}

impl Case {
    fn clone_case(&self) -> Case {
        Case { start: self.start.clone(), ..*self }
    }
}

#[test]
fn withdrawing_all_there_is_can_be_met() {
    // old 100, amount 100: new quantity zero
    let c = Case {
        new_quantity: 0,
        written: 0,
        amount: 100,
        op_type: OpType::Withdraw,
        new_volume: 0,
        ..deposit_fifty()
    };
    assert!(satisfied(&c));
}

#[test]
fn a_volume_equal_to_the_capacity_passes_and_one_above_fails() {
    let at = Case { max_capacity: 1500, ..deposit_fifty() };
    assert!(satisfied(&at));
    let above = Case { max_capacity: 1499, ..deposit_fifty() };
    assert!(!satisfied(&above));
}

#[test]
fn a_capacity_far_above_the_volume_does_not_pass_the_range_check() {
    // the capacity check is a range check of the room that is left
    let fits = Case { max_capacity: 1500 + (1u64 << 32) - 1, ..deposit_fifty() };
    assert!(satisfied(&fits));
    let beyond = Case { max_capacity: 1500 + (1u64 << 32), ..deposit_fifty() };
    assert!(!satisfied(&beyond));
}

#[test]
fn quantities_and_volumes_of_thirty_two_bits_pass_and_wider_ones_do_not() {
    let top = (1u64 << 32) - 1;
    let c = Case {
        start: vec![(1, top - 1)],
        old_quantity: top - 1,
        new_quantity: top,
        written: top,
        amount: 1,
        item_volume: 1,
        old_volume: top - 1,
        new_volume: top,
        max_capacity: top,
        ..deposit_fifty()
    };
    assert!(satisfied(&c));
    let c = Case {
        start: vec![(1, top)],
        old_quantity: top,
        new_quantity: top + 1,
        written: top + 1,
        amount: 1,
        item_volume: 0,
        old_volume: 5,
        new_volume: 5,
        max_capacity: 5,
        ..deposit_fifty()
    };
    assert!(!satisfied(&c));
}

#[test]
fn a_wrong_signal_cannot_be_met() {
    let mut circuit = circuit(&deposit_fifty());
    circuit.signal_hash = Some(fe(1));
    let mut cs = ConstraintSystem::new();
    circuit.generate_constraints(&mut cs).unwrap();
    assert!(!cs.is_satisfied());
}

#[test]
fn a_wrong_root_cannot_be_met() {
    let mut circuit = circuit(&deposit_fifty());
    circuit.new_inventory_root = Some(fe(1));
    // the signal is computed anew, so that the root alone is wrong
    let w = circuit.witness().unwrap();
    let rebuilt = StateTransitionCircuit::new(
        w.old_inventory_root,
        w.old_volume,
        w.old_blinding,
        w.new_inventory_root,
        w.new_volume,
        w.new_blinding,
        w.item_id,
        w.old_quantity,
        w.new_quantity,
        w.amount,
        w.op_type,
        w.inventory_proof,
        w.item_volume,
        w.registry_root,
        w.max_capacity,
        w.nonce,
        w.inventory_id,
    );
    let mut cs = ConstraintSystem::new();
    rebuilt.generate_constraints(&mut cs).unwrap();
    assert!(!cs.is_satisfied());
}

#[test]
fn a_missing_value_of_the_transition_is_an_error_and_writes_nothing() {
    let mut circuit = circuit(&deposit_fifty());
    circuit.amount = None;
    assert!(circuit.witness().is_none());
    let mut cs = ConstraintSystem::new();
    assert_eq!(circuit.generate_constraints(&mut cs), Err(SynthesisError::AssignmentMissing));
    assert_eq!(cs.num_constraints(), 0);
    assert_eq!(cs.num_witness_variables(), 0);
    assert_eq!(cs.num_instance_variables(), 1);
}

#[test]
fn the_empty_circuit_has_the_shape_of_a_full_one() {
    let empty = StateTransitionCircuit::empty();
    assert_eq!(empty.inventory_proof.as_ref().unwrap().depth(), DEFAULT_DEPTH);
    assert_eq!(empty.op_type, Some(OpType::Deposit));
    assert_eq!(empty.signal_hash, Some(fe(0)));
    let mut a = ConstraintSystem::new();
    empty.generate_constraints(&mut a).unwrap();
    let mut b = ConstraintSystem::new();
    circuit(&deposit_fifty()).generate_constraints(&mut b).unwrap();
    assert_eq!(a.num_constraints(), b.num_constraints());
    assert_eq!(a.num_witness_variables(), b.num_witness_variables());
    assert_eq!(a.num_instance_variables(), b.num_instance_variables());
}

#[test]
fn the_witness_of_a_circuit_fills_the_same_circuit() {
    let circuit = circuit(&deposit_fifty());
    let w = circuit.witness().unwrap();
    let mut direct = ConstraintSystem::new();
    constrain_transition(&mut direct, &w);
    assert!(direct.is_satisfied());
    let again = StateTransitionCircuit::from_witness(w);
    assert_eq!(again.signal_hash, circuit.signal_hash);
    assert_eq!(again.new_quantity, Some(150));
    let mut cs = ConstraintSystem::new();
    again.generate_constraints(&mut cs).unwrap();
    assert!(cs.is_satisfied());
    assert_eq!(cs.num_constraints(), direct.num_constraints());
}

#[test]
fn a_proof_of_another_depth_is_taken_as_it_is() {
    let mut tree = SparseMerkleTree::from_items(&[(1, 100)], 3);
    let old_root = tree.root();
    let proof: MerkleProof = tree.get_proof(1);
    let new_root = tree.update(1, 150);
    let circuit = StateTransitionCircuit::new(
        old_root,
        1000,
        fe(1),
        new_root,
        1500,
        fe(2),
        1,
        100,
        150,
        50,
        OpType::Deposit,
        proof,
        10,
        fe(3),
        10000,
        9,
        fe(4),
    );
    let mut cs = ConstraintSystem::new();
    circuit.generate_constraints(&mut cs).unwrap();
    assert!(cs.is_satisfied());
}
