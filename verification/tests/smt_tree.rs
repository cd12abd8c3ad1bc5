use inventory_circuits::anemoi::native::anemoi_hash_two;
use inventory_circuits::field::FieldElement;
use inventory_circuits::smt::tree::{SparseMerkleTree, DEFAULT_DEPTH};

fn fe(x: u64) -> FieldElement {
    FieldElement::from_u64(x)
}

#[test]
fn test_empty_tree() {
    let tree = SparseMerkleTree::new(DEFAULT_DEPTH);

    assert!(tree.is_empty());
    assert_eq!(tree.len(), 0);
    assert_eq!(tree.get(0), 0);
    assert_eq!(tree.get(100), 0);
}

#[test]
fn test_single_insert() {
    let mut tree = SparseMerkleTree::new(DEFAULT_DEPTH);

    let root1 = tree.root();
    tree.update(1, 100);
    let root2 = tree.root();

    assert_ne!(root1, root2, "Root should change after insert");
    assert_eq!(tree.get(1), 100);
    assert_eq!(tree.len(), 1);
}

#[test]
fn test_multiple_inserts() {
    let mut tree = SparseMerkleTree::new(DEFAULT_DEPTH);

    tree.update(1, 100);
    tree.update(42, 50);
    tree.update(1000, 200);

    assert_eq!(tree.get(1), 100);
    assert_eq!(tree.get(42), 50);
    assert_eq!(tree.get(1000), 200);
    assert_eq!(tree.len(), 3);
}

#[test]
fn test_update_existing() {
    let mut tree = SparseMerkleTree::new(DEFAULT_DEPTH);

    tree.update(1, 100);
    let root1 = tree.root();

    tree.update(1, 150);
    let root2 = tree.root();

    assert_ne!(root1, root2, "Root should change after update");
    assert_eq!(tree.get(1), 150);
}

#[test]
fn test_delete_item() {
    let mut tree = SparseMerkleTree::new(DEFAULT_DEPTH);

    tree.update(1, 100);
    tree.update(2, 50);
    assert_eq!(tree.len(), 2);

    tree.update(1, 0);
    assert_eq!(tree.get(1), 0);
    assert_eq!(tree.len(), 1);
}

#[test]
fn test_from_items() {
    let items = vec![(1, 100), (42, 50), (1000, 200)];
    let tree = SparseMerkleTree::from_items(&items, DEFAULT_DEPTH);

    assert_eq!(tree.get(1), 100);
    assert_eq!(tree.get(42), 50);
    assert_eq!(tree.get(1000), 200);
    assert_eq!(tree.len(), 3);
}

#[test]
fn test_proof_generation_and_verification() {
    let mut tree = SparseMerkleTree::new(DEFAULT_DEPTH);

    tree.update(1, 100);
    tree.update(42, 50);

    let proof = tree.get_proof(1);
    assert!(tree.verify_proof(1, 100, &proof));
    assert!(!tree.verify_proof(1, 99, &proof));
}

#[test]
fn test_deterministic_root() {
    let tree1 = SparseMerkleTree::from_items(&[(1, 100), (42, 50)], DEFAULT_DEPTH);
    let tree2 = SparseMerkleTree::from_items(&[(1, 100), (42, 50)], DEFAULT_DEPTH);

    assert_eq!(tree1.root(), tree2.root());
}

#[test]
fn test_order_independence() {
    let tree1 = SparseMerkleTree::from_items(&[(1, 100), (42, 50)], DEFAULT_DEPTH);
    let tree2 = SparseMerkleTree::from_items(&[(42, 50), (1, 100)], DEFAULT_DEPTH);

    assert_eq!(tree1.root(), tree2.root());
}

#[test]
fn default_depth_is_twelve() {
    assert_eq!(DEFAULT_DEPTH, 12);
    assert_eq!(SparseMerkleTree::new(DEFAULT_DEPTH).depth(), 12);
}

#[test]
fn the_defaults_are_the_hashes_of_empty_subtrees() {
    let tree = SparseMerkleTree::new(3);
    let leaf = anemoi_hash_two(fe(0), fe(0));
    let one = anemoi_hash_two(leaf, leaf);
    let two = anemoi_hash_two(one, one);
    let three = anemoi_hash_two(two, two);
    assert_eq!(tree.default_at_level(0), leaf);
    assert_eq!(tree.default_at_level(1), one);
    assert_eq!(tree.default_at_level(2), two);
    assert_eq!(tree.default_at_level(3), three);
    assert_eq!(tree.root(), three);
}

#[test]
fn the_root_of_a_small_tree_is_the_hash_of_its_nodes() {
    // depth 2, item 2 with quantity 9: leaves d, d, H(2, 9), d
    let mut tree = SparseMerkleTree::new(2);
    let root = tree.update(2, 9);
    let d = anemoi_hash_two(fe(0), fe(0));
    let left = anemoi_hash_two(d, d);
    let right = anemoi_hash_two(anemoi_hash_two(fe(2), fe(9)), d);
    assert_eq!(root, anemoi_hash_two(left, right));
    assert_eq!(tree.root(), root);
}

#[test]
fn update_is_idempotent() {
    let mut tree = SparseMerkleTree::new(DEFAULT_DEPTH);
    let first = tree.update(7, 3);
    let second = tree.update(7, 3);
    assert_eq!(first, second);
}

#[test]
fn a_zeroed_slot_is_an_empty_slot() {
    let mut tree = SparseMerkleTree::new(1);
    tree.update(1, 5);
    let root = tree.update(1, 0);
    let d = anemoi_hash_two(fe(0), fe(0));
    assert_eq!(root, anemoi_hash_two(d, d));
    assert_eq!(root, SparseMerkleTree::new(1).root());
    assert_eq!(tree.get(1), 0);
    assert_eq!(tree.len(), 0);
    assert!(tree.is_empty());
}

#[test]
fn setting_an_item_back_to_zero_gives_the_tree_that_never_held_it() {
    let never = SparseMerkleTree::from_items(&[(3, 1), (9, 5)], DEFAULT_DEPTH);
    let mut tree = SparseMerkleTree::from_items(&[(3, 1), (7, 40), (9, 5)], DEFAULT_DEPTH);
    assert_ne!(tree.root(), never.root());
    assert_eq!(tree.update(7, 0), never.root());
    assert_eq!(tree.get(7), 0);
    assert_eq!(tree.len(), 2);
    assert_eq!(tree.get_proof(7).path(), never.get_proof(7).path());
    // writing zero into an empty slot changes nothing
    assert_eq!(tree.update(8, 0), never.root());
    assert_eq!(tree.len(), 2);
}

#[test]
fn the_leaf_of_quantity_zero_is_the_leaf_of_an_empty_slot() {
    let tree = SparseMerkleTree::from_items(&[(3, 1)], DEFAULT_DEPTH);
    let proof = tree.get_proof(7);
    let d = anemoi_hash_two(fe(0), fe(0));
    assert_eq!(proof.compute_root(7, 0), proof.compute_root_from_leaf(d));
    assert_eq!(proof.compute_root(7, 0), tree.root());
    assert_eq!(
        proof.compute_root(7, 2),
        proof.compute_root_from_leaf(anemoi_hash_two(fe(7), fe(2)))
    );
    assert!(tree.verify_proof(7, 0, &proof));
    assert!(!tree.verify_proof(7, 1, &proof));
}

#[test]
fn capacity_is_two_to_the_depth() {
    let mut tree = SparseMerkleTree::new(DEFAULT_DEPTH);
    assert!(tree.in_capacity(4095));
    assert!(!tree.in_capacity(4096));
    let before = tree.root();
    assert_eq!(tree.try_update(4096, 100), None);
    assert_eq!(tree.root(), before);
    assert_eq!(tree.get(4096), 0);
    let root = tree.try_update(4095, 100);
    assert_eq!(root, Some(tree.root()));
    assert_eq!(tree.get(4095), 100);
}

#[test]
fn depth_zero_has_one_slot() {
    let mut tree = SparseMerkleTree::new(0);
    assert!(tree.in_capacity(0));
    assert!(!tree.in_capacity(1));
    let root = tree.update(0, 4);
    assert_eq!(root, anemoi_hash_two(fe(0), fe(4)));
    let proof = tree.get_proof(0);
    assert_eq!(proof.depth(), 0);
    assert!(tree.verify_proof(0, 4, &proof));
}

#[test]
fn depth_sixty_three_works() {
    let mut tree = SparseMerkleTree::new(63);
    let id = (1u64 << 63) - 1;
    assert!(tree.in_capacity(id));
    assert!(!tree.in_capacity(1u64 << 63));
    tree.update(id, 8);
    let proof = tree.get_proof(id);
    assert_eq!(proof.depth(), 63);
    assert!(tree.verify_proof(id, 8, &proof));
}

#[test]
fn round_trip_after_many_updates() {
    let mut tree = SparseMerkleTree::new(DEFAULT_DEPTH);
    for (id, q) in [(3u64, 1u64), (4, 2), (3, 7), (100, 9), (4, 0), (3, 5)] {
        tree.update(id, q);
    }
    let proof = tree.get_proof(3);
    assert!(tree.verify_proof(3, 5, &proof));
    assert!(!tree.verify_proof(3, 7, &proof));
    assert!(!tree.verify_proof(3, 6, &proof));
    // an item set back to zero verifies with zero
    let proof = tree.get_proof(4);
    assert!(tree.verify_proof(4, 0, &proof));
    assert!(!tree.verify_proof(4, 2, &proof));
    // and so does one that was never there
    let proof = tree.get_proof(5);
    assert!(tree.verify_proof(5, 0, &proof));
    assert!(!tree.verify_proof(5, 1, &proof));
}

#[test]
fn an_old_proof_leads_to_the_old_root_only() {
    let mut tree = SparseMerkleTree::from_items(&[(1, 100), (2, 5)], DEFAULT_DEPTH);
    let old_root = tree.root();
    let proof = tree.get_proof(1);
    tree.update(2, 6);
    assert_eq!(proof.compute_root(1, 100), old_root);
    assert!(!tree.verify_proof(1, 100, &proof));
}

#[test]
fn the_proof_drawn_before_an_update_leads_to_the_root_after_it() {
    let mut tree = SparseMerkleTree::from_items(&[(1, 100), (9, 5)], DEFAULT_DEPTH);
    let proof = tree.get_proof(1);
    let expected = proof.compute_root(1, 150);
    assert_eq!(tree.update(1, 150), expected);
}

#[test]
fn later_writes_win_in_from_items() {
    let tree = SparseMerkleTree::from_items(&[(1, 100), (1, 30)], DEFAULT_DEPTH);
    assert_eq!(tree.get(1), 30);
    let other = SparseMerkleTree::from_items(&[(1, 30)], DEFAULT_DEPTH);
    assert_eq!(tree.root(), other.root());
}

#[test]
fn a_clone_is_a_tree_of_its_own() {
    let mut tree = SparseMerkleTree::from_items(&[(1, 100)], DEFAULT_DEPTH);
    let copy = tree.clone();
    tree.update(1, 5);
    assert_eq!(copy.get(1), 100);
    assert_ne!(copy.root(), tree.root());
}

#[test]
fn the_items_are_those_with_a_quantity() {
    let tree = SparseMerkleTree::from_items(&[(3, 1), (9, 5), (4, 2), (9, 0)], DEFAULT_DEPTH);
    let mut items = tree.items();
    items.sort();
    assert_eq!(items, vec![(3, 1), (4, 2)]);
    assert_eq!(tree.len(), 2);
    assert!(SparseMerkleTree::new(DEFAULT_DEPTH).items().is_empty());
}
