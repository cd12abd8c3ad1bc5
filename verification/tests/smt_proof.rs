use inventory_circuits::anemoi::native::anemoi_hash_two;
use inventory_circuits::field::FieldElement;
use inventory_circuits::smt::merkle_proof::MerkleProof;

fn fe(x: u64) -> FieldElement {
    FieldElement::from_u64(x)
}

#[test]
fn test_proof_structure() {
    let path = vec![fe(1), fe(2), fe(3)];
    let indices = vec![false, true, false];

    let proof = MerkleProof::new(path.clone(), indices.clone());

    assert_eq!(proof.depth(), 3);
    assert_eq!(proof.path(), &path);
    assert_eq!(proof.indices(), &indices);
}

#[test]
fn test_compute_root_deterministic() {
    let path = vec![fe(1), fe(2)];
    let indices = vec![false, false];

    let proof = MerkleProof::new(path, indices);

    let root1 = proof.compute_root(1, 100);
    let root2 = proof.compute_root(1, 100);

    assert_eq!(root1, root2);
}

#[test]
fn test_different_quantities_different_roots() {
    let path = vec![fe(1), fe(2)];
    let indices = vec![false, false];

    let proof = MerkleProof::new(path, indices);

    let root1 = proof.compute_root(1, 100);
    let root2 = proof.compute_root(1, 101);

    assert_ne!(root1, root2);
}

#[test]
fn the_climb_hashes_with_each_sibling_on_the_right_side() {
    let proof = MerkleProof::new(vec![fe(11), fe(22)], vec![false, true]);
    let leaf = anemoi_hash_two(fe(5), fe(6));
    let first = anemoi_hash_two(leaf, fe(11));
    let second = anemoi_hash_two(fe(22), first);
    assert_eq!(proof.compute_root(5, 6), second);
    assert_eq!(proof.compute_root_from_leaf(leaf), second);
}

#[test]
fn a_proof_of_no_level_leaves_the_leaf() {
    let proof = MerkleProof::new(vec![], vec![]);
    assert_eq!(proof.depth(), 0);
    assert_eq!(proof.compute_root_from_leaf(fe(9)), fe(9));
}

#[test]
fn the_empty_proof_has_zero_siblings_on_the_left_way() {
    let proof = MerkleProof::empty(4);
    assert_eq!(proof.depth(), 4);
    assert_eq!(proof.path(), &vec![fe(0); 4]);
    assert_eq!(proof.indices(), &vec![false; 4]);
}

#[test]
fn a_cloned_proof_is_the_same_proof() {
    let proof = MerkleProof::new(vec![fe(1), fe(2)], vec![true, false]);
    let copy = proof.clone();
    assert_eq!(copy.path(), proof.path());
    assert_eq!(copy.indices(), proof.indices());
}
