use inventory_circuits::field::FieldElement;
use inventory_circuits::r1cs::{ConstraintSystem, FpVar};
use inventory_circuits::smt::gadgets::{
    compute_root_from_path, hash_leaf, hash_two, slot_leaf, verify_and_update,
    verify_membership, verify_non_membership, MerkleProofVar,
};
use inventory_circuits::smt::merkle_proof::hash_slot_leaf;
use inventory_circuits::smt::tree::{SparseMerkleTree, DEFAULT_DEPTH};

fn fe(x: u64) -> FieldElement {
    FieldElement::from_u64(x)
}

#[test]
fn test_verify_membership_valid() {
    let mut tree = SparseMerkleTree::new(DEFAULT_DEPTH);

    tree.update(1, 100);
    tree.update(42, 50);

    let root = tree.root();
    let proof = tree.get_proof(1);

    let mut cs = ConstraintSystem::new();
    let root_var = cs.new_input(root);
    let item_id_var = cs.new_witness(fe(1));
    let quantity_var = cs.new_witness(fe(100));
    let proof_var = MerkleProofVar::new_witness(&mut cs, &proof);

    verify_membership(&mut cs, &root_var, &item_id_var, &quantity_var, &proof_var);

    assert!(cs.is_satisfied());
}

#[test]
fn test_verify_membership_wrong_quantity() {
    let mut tree = SparseMerkleTree::new(DEFAULT_DEPTH);

    tree.update(1, 100);
    let root = tree.root();
    let proof = tree.get_proof(1);

    let mut cs = ConstraintSystem::new();
    let root_var = cs.new_input(root);
    let item_id_var = cs.new_witness(fe(1));
    let quantity_var = cs.new_witness(fe(99));
    let proof_var = MerkleProofVar::new_witness(&mut cs, &proof);

    verify_membership(&mut cs, &root_var, &item_id_var, &quantity_var, &proof_var);

    assert!(!cs.is_satisfied());
}

#[test]
fn test_verify_and_update() {
    let mut tree = SparseMerkleTree::new(DEFAULT_DEPTH);

    tree.update(1, 100);
    let old_root = tree.root();
    let proof = tree.get_proof(1);

    tree.update(1, 150);
    let expected_new_root = tree.root();

    let mut cs = ConstraintSystem::new();
    let old_root_var = cs.new_input(old_root);
    let item_id_var = cs.new_witness(fe(1));
    let old_qty_var = cs.new_witness(fe(100));
    let new_qty_var = cs.new_witness(fe(150));
    let proof_var = MerkleProofVar::new_witness(&mut cs, &proof);

    let computed_new_root = verify_and_update(
        &mut cs,
        &old_root_var,
        &item_id_var,
        &old_qty_var,
        &new_qty_var,
        &proof_var,
    );

    let expected_var = cs.new_input(expected_new_root);
    computed_new_root.enforce_equal(&expected_var, &mut cs);

    assert!(cs.is_satisfied());
    assert_eq!(computed_new_root.value(), expected_new_root);
}

#[test]
fn gadgets_test_constraint_count() {
    let mut tree = SparseMerkleTree::new(DEFAULT_DEPTH);

    tree.update(1, 100);
    let root = tree.root();
    let proof = tree.get_proof(1);

    let mut cs = ConstraintSystem::new();
    let root_var = cs.new_input(root);
    let item_id_var = cs.new_witness(fe(1));
    let quantity_var = cs.new_witness(fe(100));
    let proof_var = MerkleProofVar::new_witness(&mut cs, &proof);

    verify_membership(&mut cs, &root_var, &item_id_var, &quantity_var, &proof_var);

    let num_constraints = cs.num_constraints();
    println!(
        "SMT membership verification constraints (depth {}): {}",
        DEFAULT_DEPTH, num_constraints
    );
    assert!(
        num_constraints < 5000,
        "Too many constraints: {}. Expected < 5000 for depth {}",
        num_constraints,
        DEFAULT_DEPTH
    );
}

#[test]
fn the_proof_variables_carry_the_proof() {
    let tree = SparseMerkleTree::from_items(&[(5, 9), (4, 1)], 4);
    let proof = tree.get_proof(5);
    let mut cs = ConstraintSystem::new();
    let proof_var = MerkleProofVar::new_witness(&mut cs, &proof);
    assert_eq!(proof_var.depth(), 4);
    let path: Vec<FieldElement> = proof_var.path().iter().map(|v| v.value()).collect();
    let indices: Vec<bool> = proof_var.indices().iter().map(|b| b.value()).collect();
    assert_eq!(&path, proof.path());
    assert_eq!(&indices, proof.indices());
    // one witness for each sibling and each direction, one constraint for
    // each direction
    assert_eq!(cs.num_witness_variables(), 8);
    assert_eq!(cs.num_constraints(), 4);
    assert!(cs.is_satisfied());
}

#[test]
fn the_root_gadget_matches_the_native_climb() {
    let tree = SparseMerkleTree::from_items(&[(5, 9), (4, 1), (11, 3)], 4);
    for id in [4u64, 5, 11] {
        let proof = tree.get_proof(id);
        let mut cs = ConstraintSystem::new();
        let id_var = cs.new_witness(fe(id));
        let qty_var = cs.new_witness(fe(tree.get(id)));
        let proof_var = MerkleProofVar::new_witness(&mut cs, &proof);
        let leaf = hash_leaf(&mut cs, &id_var, &qty_var);
        let root = compute_root_from_path(&mut cs, &leaf, &proof_var);
        assert_eq!(root.value(), tree.root());
        assert_eq!(root.value(), proof.compute_root(id, tree.get(id)));
        assert!(cs.is_satisfied());
    }
}

#[test]
fn hash_two_is_the_hash_gadget() {
    let mut cs = ConstraintSystem::new();
    let a = cs.new_witness(fe(3));
    let b = cs.new_witness(fe(4));
    let h = hash_two(&mut cs, &a, &b);
    assert_eq!(h.value(), inventory_circuits::anemoi::native::anemoi_hash_two(fe(3), fe(4)));
}

#[test]
fn non_membership_holds_of_the_empty_slots_only() {
    let tree = SparseMerkleTree::from_items(&[(1, 100)], DEFAULT_DEPTH);
    let root = tree.root();
    for (id, expected) in [(0u64, true), (7u64, true), (1u64, false)] {
        let proof = tree.get_proof(id);
        let mut cs = ConstraintSystem::new();
        let root_var = cs.new_input(root);
        let id_var = cs.new_witness(fe(id));
        let proof_var = MerkleProofVar::new_witness(&mut cs, &proof);
        verify_non_membership(&mut cs, &root_var, &id_var, &proof_var);
        assert_eq!(cs.is_satisfied(), expected, "item {}", id);
    }
}

#[test]
fn a_zeroed_slot_is_no_member_any_more() {
    let mut tree = SparseMerkleTree::from_items(&[(7, 100)], DEFAULT_DEPTH);
    tree.update(7, 0);
    let proof = tree.get_proof(7);
    let mut cs = ConstraintSystem::new();
    let root_var = cs.new_input(tree.root());
    let id_var = cs.new_witness(fe(7));
    let proof_var = MerkleProofVar::new_witness(&mut cs, &proof);
    verify_non_membership(&mut cs, &root_var, &id_var, &proof_var);
    assert!(cs.is_satisfied());
    for (quantity, expected) in [(0u64, true), (100u64, false)] {
        let mut cs = ConstraintSystem::new();
        let root_var = cs.new_input(tree.root());
        let id_var = cs.new_witness(fe(7));
        let quantity_var = cs.new_witness(fe(quantity));
        let proof_var = MerkleProofVar::new_witness(&mut cs, &proof);
        verify_membership(&mut cs, &root_var, &id_var, &quantity_var, &proof_var);
        assert_eq!(cs.is_satisfied(), expected, "quantity {}", quantity);
        assert_eq!(tree.verify_proof(7, quantity, &proof), expected);
    }
}

#[test]
fn the_slot_leaf_is_the_leaf_of_the_tree() {
    let d = inventory_circuits::anemoi::native::anemoi_hash_two(fe(0), fe(0));
    for (id, quantity) in [(7u64, 0u64), (0, 0), (7, 1), (0, 3)] {
        let mut cs = ConstraintSystem::new();
        let id_var = cs.new_witness(fe(id));
        let quantity_var = cs.new_witness(fe(quantity));
        let leaf = slot_leaf(&mut cs, &id_var, &quantity_var);
        assert!(cs.is_satisfied());
        let expected = if quantity == 0 {
            d
        } else {
            inventory_circuits::anemoi::native::anemoi_hash_two(fe(id), fe(quantity))
        };
        assert_eq!(leaf.value(), expected);
        assert_eq!(leaf.value(), hash_slot_leaf(id, quantity));
    }
}

fn update_circuit(
    tree: &SparseMerkleTree,
    id: u64,
    old_qty: u64,
    new_qty: u64,
) -> (ConstraintSystem, FpVar) {
    let proof = tree.get_proof(id);
    let mut cs = ConstraintSystem::new();
    let old_root_var = cs.new_input(tree.root());
    let id_var = cs.new_witness(fe(id));
    let old_qty_var = cs.new_witness(fe(old_qty));
    let new_qty_var = cs.new_witness(fe(new_qty));
    let proof_var = MerkleProofVar::new_witness(&mut cs, &proof);
    let new_root =
        verify_and_update(&mut cs, &old_root_var, &id_var, &old_qty_var, &new_qty_var, &proof_var);
    (cs, new_root)
}

#[test]
fn an_update_of_a_zeroed_slot_is_an_insertion() {
    let mut tree = SparseMerkleTree::from_items(&[(7, 100)], DEFAULT_DEPTH);
    tree.update(7, 0);
    let (cs, new_root) = update_circuit(&tree, 7, 0, 5);
    assert!(cs.is_satisfied());
    let fresh = SparseMerkleTree::new(DEFAULT_DEPTH);
    let (fresh_cs, fresh_root) = update_circuit(&fresh, 7, 0, 5);
    assert!(fresh_cs.is_satisfied());
    assert_eq!(new_root.value(), fresh_root.value());
    let mut after = fresh.clone();
    assert_eq!(new_root.value(), after.update(7, 5));
}

#[test]
fn an_update_to_zero_leads_to_the_tree_without_the_item() {
    let tree = SparseMerkleTree::from_items(&[(3, 1), (7, 100)], DEFAULT_DEPTH);
    let (cs, new_root) = update_circuit(&tree, 7, 100, 0);
    assert!(cs.is_satisfied());
    let without = SparseMerkleTree::from_items(&[(3, 1)], DEFAULT_DEPTH);
    assert_eq!(new_root.value(), without.root());
    let mut after = tree.clone();
    assert_eq!(new_root.value(), after.update(7, 0));
    // the old quantity must still be the one that the tree holds
    let (cs, _) = update_circuit(&tree, 7, 0, 0);
    assert!(!cs.is_satisfied());
}
