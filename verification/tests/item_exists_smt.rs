use inventory_circuits::anemoi::native::anemoi_hash_many;
use inventory_circuits::field::FieldElement;
use inventory_circuits::item_exists_smt::{compute_item_exists_hash, ItemExistsSMTCircuit};
use inventory_circuits::r1cs::{ConstraintSystem, SynthesisError};
use inventory_circuits::smt::tree::{SparseMerkleTree, DEFAULT_DEPTH};
use inventory_circuits::smt_commitment::create_smt_commitment;

fn fe(x: u64) -> FieldElement {
    FieldElement::from_u64(x)
}

fn circuit(
    held: u64,
    volume: u64,
    item_id: u64,
    actual: u64,
    min: u64,
) -> ItemExistsSMTCircuit {
    let tree = SparseMerkleTree::from_items(&[(42, held)], DEFAULT_DEPTH);
    let root = tree.root();
    let proof = tree.get_proof(42);
    ItemExistsSMTCircuit::new(root, volume, fe(12345), item_id, actual, min, proof)
}

fn satisfied(c: &ItemExistsSMTCircuit) -> bool {
    let mut cs = ConstraintSystem::new();
    c.generate_constraints(&mut cs).unwrap();
    cs.is_satisfied()
}

#[test]
fn test_item_exists_valid() {
    let circuit = circuit(100, 1000, 42, 100, 50);
    let mut cs = ConstraintSystem::new();
    circuit.generate_constraints(&mut cs).unwrap();

    assert!(cs.is_satisfied());
    println!("ItemExists SMT constraints: {}", cs.num_constraints());
}

#[test]
fn test_item_exists_exact() {
    assert!(satisfied(&circuit(100, 1000, 42, 100, 100)));
}

#[test]
fn test_item_exists_wrong_quantity() {
    assert!(!satisfied(&circuit(50, 500, 42, 100, 100)));
}

#[test]
fn test_item_exists_wrong_item() {
    assert!(!satisfied(&circuit(100, 1000, 99, 100, 50)));
}

#[test]
fn the_public_hash_is_the_hash_of_commitment_item_and_quantity_asked_for() {
    let h = compute_item_exists_hash(fe(5), 6, 7);
    assert_eq!(h, anemoi_hash_many(&[fe(5), fe(6), fe(7)]));
    let c = circuit(100, 1000, 42, 100, 50);
    let commitment = create_smt_commitment(c.inventory_root.unwrap(), 1000, fe(12345));
    assert_eq!(c.public_hash, Some(compute_item_exists_hash(commitment, 42, 50)));
    let mut cs = ConstraintSystem::new();
    c.generate_constraints(&mut cs).unwrap();
    assert_eq!(cs.public_inputs(), vec![c.public_hash.unwrap()]);
}

#[test]
fn a_wrong_public_hash_cannot_be_met() {
    let mut c = circuit(100, 1000, 42, 100, 50);
    c.public_hash = Some(fe(99999));
    assert!(!satisfied(&c));
}

#[test]
fn a_missing_value_of_the_membership_is_an_error_and_writes_nothing() {
    let mut c = circuit(100, 1000, 42, 100, 50);
    c.min_quantity = None;
    let mut cs = ConstraintSystem::new();
    assert_eq!(c.generate_constraints(&mut cs), Err(SynthesisError::AssignmentMissing));
    assert_eq!(cs.num_constraints(), 0);
    assert_eq!(cs.num_witness_variables(), 0);
}

#[test]
fn the_empty_circuit_holds_nothing() {
    let c = ItemExistsSMTCircuit::empty();
    assert!(c.public_hash.is_none());
    assert!(c.inventory_root.is_none());
    assert!(c.current_volume.is_none());
    assert!(c.blinding.is_none());
    assert!(c.item_id.is_none());
    assert!(c.actual_quantity.is_none());
    assert!(c.min_quantity.is_none());
    assert!(c.proof.is_none());
}
