use inventory_circuits::anemoi::native::anemoi_hash_many;
use inventory_circuits::field::FieldElement;
use inventory_circuits::r1cs::ConstraintSystem;
use inventory_circuits::smt::tree::{SparseMerkleTree, DEFAULT_DEPTH};
use inventory_circuits::smt_commitment::{
    create_smt_commitment, create_smt_commitment_var, InventoryState, InventoryStateVar,
};

fn fe(x: u64) -> FieldElement {
    FieldElement::from_u64(x)
}

#[test]
fn test_commitment_deterministic() {
    let root = fe(12345);
    let volume = 100u64;
    let blinding = fe(99999);

    let commitment1 = create_smt_commitment(root, volume, blinding);
    let commitment2 = create_smt_commitment(root, volume, blinding);

    assert_eq!(commitment1, commitment2);
}

#[test]
fn test_different_roots_different_commitments() {
    let blinding = fe(99999);

    let commitment1 = create_smt_commitment(fe(1), 100, blinding);
    let commitment2 = create_smt_commitment(fe(2), 100, blinding);

    assert_ne!(commitment1, commitment2);
}

#[test]
fn test_different_volumes_different_commitments() {
    let root = fe(12345);
    let blinding = fe(99999);

    let commitment1 = create_smt_commitment(root, 100, blinding);
    let commitment2 = create_smt_commitment(root, 101, blinding);

    assert_ne!(commitment1, commitment2);
}

#[test]
fn test_different_blindings_different_commitments() {
    let root = fe(12345);

    let commitment1 = create_smt_commitment(root, 100, fe(1));
    let commitment2 = create_smt_commitment(root, 100, fe(2));

    assert_ne!(commitment1, commitment2);
}

#[test]
fn smt_commitment_test_in_circuit_matches_native() {
    let root = fe(12345);
    let volume = 100u64;
    let blinding = fe(99999);

    let native_commitment = create_smt_commitment(root, volume, blinding);

    let mut cs = ConstraintSystem::new();
    let root_var = cs.new_witness(root);
    let volume_var = cs.new_witness(fe(volume));
    let blinding_var = cs.new_witness(blinding);

    let circuit_commitment =
        create_smt_commitment_var(&mut cs, &root_var, &volume_var, &blinding_var);

    let expected_var = cs.new_input(native_commitment);
    circuit_commitment.enforce_equal(&expected_var, &mut cs);

    assert!(cs.is_satisfied());
    assert_eq!(circuit_commitment.value(), native_commitment);
    println!("SMT commitment constraints: {}", cs.num_constraints());
}

#[test]
fn test_inventory_state_workflow() {
    let tree = SparseMerkleTree::new(DEFAULT_DEPTH);
    let empty_root = tree.root();
    let blinding = fe(12345);

    let state = InventoryState::empty(empty_root, blinding);
    assert_eq!(state.current_volume, 0);

    let commitment1 = state.commitment();

    let mut tree2 = tree.clone();
    tree2.update(1, 5);
    let new_root = tree2.root();
    let new_blinding = fe(67890);

    let state2 = state.after_deposit(new_root, 10, 5, new_blinding);
    assert_eq!(state2.current_volume, 50);

    let commitment2 = state2.commitment();
    assert_ne!(commitment1, commitment2);

    let mut tree3 = tree2.clone();
    tree3.update(1, 3);
    let new_root2 = tree3.root();
    let new_blinding2 = fe(11111);

    let state3 = state2.after_withdraw(new_root2, 10, 2, new_blinding2);
    assert_eq!(state3.current_volume, 30);
}

#[test]
fn the_commitment_is_the_hash_of_root_volume_and_blinding() {
    let c = create_smt_commitment(fe(7), 8, fe(9));
    assert_eq!(c, anemoi_hash_many(&[fe(7), fe(8), fe(9)]));
    assert_ne!(c, anemoi_hash_many(&[fe(8), fe(7), fe(9)]));
}

#[test]
fn the_state_keeps_its_parts() {
    let s = InventoryState::new(fe(1), 2, fe(3));
    assert_eq!(s.inventory_root, fe(1));
    assert_eq!(s.current_volume, 2);
    assert_eq!(s.blinding, fe(3));
    assert_eq!(s.commitment(), create_smt_commitment(fe(1), 2, fe(3)));
    let w = s.after_withdraw(fe(4), 1, 2, fe(5));
    assert_eq!(w.inventory_root, fe(4));
    assert_eq!(w.current_volume, 0);
    assert_eq!(w.blinding, fe(5));
}

#[test]
fn the_state_variables_commit_as_the_state_does() {
    let s = InventoryState::new(fe(11), 22, fe(33));
    let mut cs = ConstraintSystem::new();
    let vars = InventoryStateVar::new(
        cs.new_witness(s.inventory_root),
        cs.new_witness(fe(s.current_volume)),
        cs.new_witness(s.blinding),
    );
    let c = vars.commitment(&mut cs);
    assert_eq!(c.value(), s.commitment());
    assert!(cs.is_satisfied());
}
