use inventory_circuits::anemoi::native::anemoi_hash_many;
use inventory_circuits::capacity_smt::{compute_capacity_hash, CapacitySMTCircuit};
use inventory_circuits::field::FieldElement;
use inventory_circuits::r1cs::{ConstraintSystem, SynthesisError};
use inventory_circuits::smt::tree::{SparseMerkleTree, DEFAULT_DEPTH};
use inventory_circuits::smt_commitment::create_smt_commitment;

fn fe(x: u64) -> FieldElement {
    FieldElement::from_u64(x)
}

fn satisfied(c: &CapacitySMTCircuit) -> bool {
    let mut cs = ConstraintSystem::new();
    c.generate_constraints(&mut cs).unwrap();
    cs.is_satisfied()
}

#[test]
fn test_capacity_valid() {
    let tree = SparseMerkleTree::from_items(&[(1, 100), (2, 50)], DEFAULT_DEPTH);
    let root = tree.root();

    let circuit = CapacitySMTCircuit::new(root, 500, fe(12345), 1000);

    let mut cs = ConstraintSystem::new();
    circuit.generate_constraints(&mut cs).unwrap();

    assert!(cs.is_satisfied());
    println!("Capacity SMT constraints: {}", cs.num_constraints());
}

#[test]
fn test_capacity_at_limit() {
    let tree = SparseMerkleTree::from_items(&[(1, 100)], DEFAULT_DEPTH);
    let circuit = CapacitySMTCircuit::new(tree.root(), 1000, fe(12345), 1000);
    assert!(satisfied(&circuit));
}

#[test]
fn test_capacity_empty_inventory() {
    let tree = SparseMerkleTree::new(DEFAULT_DEPTH);
    let circuit = CapacitySMTCircuit::new(tree.root(), 0, fe(12345), 1000);
    assert!(satisfied(&circuit));
}

#[test]
fn test_capacity_wrong_commitment() {
    let tree = SparseMerkleTree::from_items(&[(1, 100)], DEFAULT_DEPTH);
    let mut circuit = CapacitySMTCircuit::new(tree.root(), 500, fe(12345), 1000);

    circuit.inventory_root = Some(fe(99999));

    assert!(!satisfied(&circuit));
}

#[test]
fn the_public_hash_is_the_hash_of_commitment_and_capacity() {
    assert_eq!(compute_capacity_hash(fe(5), 6), anemoi_hash_many(&[fe(5), fe(6)]));
    let c = CapacitySMTCircuit::new(fe(1), 2, fe(3), 4);
    let commitment = create_smt_commitment(fe(1), 2, fe(3));
    assert_eq!(c.public_hash, Some(compute_capacity_hash(commitment, 4)));
    let mut cs = ConstraintSystem::new();
    c.generate_constraints(&mut cs).unwrap();
    assert_eq!(cs.public_inputs(), vec![c.public_hash.unwrap()]);
    assert!(cs.is_satisfied());
}

#[test]
fn a_wrong_capacity_cannot_be_met() {
    let mut c = CapacitySMTCircuit::new(fe(1), 2, fe(3), 4);
    c.max_capacity = Some(5);
    assert!(!satisfied(&c));
}

#[test]
fn a_missing_value_of_the_capacity_is_an_error_and_writes_nothing() {
    let c = CapacitySMTCircuit::empty();
    assert!(c.public_hash.is_none() && c.max_capacity.is_none());
    let mut cs = ConstraintSystem::new();
    assert_eq!(c.generate_constraints(&mut cs), Err(SynthesisError::AssignmentMissing));
    assert_eq!(cs.num_constraints(), 0);
    assert_eq!(cs.num_witness_variables(), 0);
    assert_eq!(cs.num_instance_variables(), 1);
}
