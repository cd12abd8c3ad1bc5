use inventory_circuits::field::FieldElement;
use inventory_circuits::r1cs::ConstraintSystem;
use inventory_circuits::smt::gadgets::{verify_and_update, MerkleProofVar};
use inventory_circuits::smt::tree::{SparseMerkleTree, DEFAULT_DEPTH};

fn fe(x: u64) -> FieldElement {
    FieldElement::from_u64(x)
}

#[test]
fn test_full_workflow() {
    let items = vec![(1, 100), (5, 50), (100, 25)];

    let tree = SparseMerkleTree::from_items(&items, DEFAULT_DEPTH);

    for &(item_id, quantity) in &items {
        let proof = tree.get_proof(item_id);
        assert!(tree.verify_proof(item_id, quantity, &proof));
    }

    assert_eq!(tree.get(999), 0);
}

#[test]
fn test_deposit_workflow() {
    let mut tree = SparseMerkleTree::new(DEFAULT_DEPTH);

    let initial_root = tree.root();

    tree.update(1, 100);
    let after_deposit = tree.root();

    assert_ne!(initial_root, after_deposit);
    assert_eq!(tree.get(1), 100);

    let proof = tree.get_proof(1);
    assert!(tree.verify_proof(1, 100, &proof));
}

#[test]
fn test_withdraw_workflow() {
    let mut tree = SparseMerkleTree::from_items(&[(1, 100)], DEFAULT_DEPTH);

    let old_root = tree.root();
    let proof = tree.get_proof(1);

    tree.update(1, 70);
    let new_root = tree.root();

    assert_ne!(old_root, new_root);
    assert_eq!(tree.get(1), 70);

    let old_computed = proof.compute_root(1, 100);
    assert_eq!(old_computed, old_root);
}

fn update_in_circuit(
    start: &[(u64, u64)],
    slot: u64,
    written: u64,
    item_id: u64,
    old_qty: u64,
    new_qty: u64,
) -> ConstraintSystem {
    let mut tree = SparseMerkleTree::from_items(start, DEFAULT_DEPTH);

    let old_root = tree.root();
    let proof = tree.get_proof(slot);

    tree.update(slot, written);
    let new_root = tree.root();

    let mut cs = ConstraintSystem::new();
    let old_root_var = cs.new_input(old_root);
    let new_root_var = cs.new_input(new_root);
    let item_id_var = cs.new_witness(fe(item_id));
    let old_qty_var = cs.new_witness(fe(old_qty));
    let new_qty_var = cs.new_witness(fe(new_qty));
    let proof_var = MerkleProofVar::new_witness(&mut cs, &proof);

    let computed_new_root = verify_and_update(
        &mut cs,
        &old_root_var,
        &item_id_var,
        &old_qty_var,
        &new_qty_var,
        &proof_var,
    );

    computed_new_root.enforce_equal(&new_root_var, &mut cs);
    cs
}

#[test]
fn test_circuit_deposit() {
    let cs = update_in_circuit(&[(1, 100)], 1, 150, 1, 100, 150);
    assert!(cs.is_satisfied());
    println!("Deposit circuit satisfied with {} constraints", cs.num_constraints());
}

#[test]
fn test_circuit_withdraw() {
    let cs = update_in_circuit(&[(1, 100)], 1, 70, 1, 100, 70);
    assert!(cs.is_satisfied());
    println!("Withdraw circuit satisfied with {} constraints", cs.num_constraints());
}

#[test]
fn test_circuit_new_item() {
    let cs = update_in_circuit(&[], 42, 100, 42, 0, 100);
    assert!(cs.is_satisfied());
    println!("New item circuit satisfied with {} constraints", cs.num_constraints());
}

#[test]
fn test_soundness_wrong_old_quantity() {
    let cs = update_in_circuit(&[(1, 100)], 1, 150, 1, 99, 150);
    assert!(!cs.is_satisfied());
}

#[test]
fn test_soundness_wrong_item_id() {
    let cs = update_in_circuit(&[(1, 100)], 1, 150, 2, 100, 150);
    assert!(!cs.is_satisfied());
}

#[test]
fn test_large_item_ids() {
    let items = vec![(0, 10), (1, 20), (4094, 30), (4095, 40)];

    let tree = SparseMerkleTree::from_items(&items, DEFAULT_DEPTH);

    for &(item_id, quantity) in &items {
        let proof = tree.get_proof(item_id);
        assert!(tree.verify_proof(item_id, quantity, &proof));
    }
}

#[test]
fn a_wrong_new_quantity_gives_another_root() {
    let cs = update_in_circuit(&[(1, 100)], 1, 150, 1, 100, 151);
    assert!(!cs.is_satisfied());
}
