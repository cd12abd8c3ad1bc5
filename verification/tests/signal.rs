use inventory_circuits::anemoi::native::anemoi_hash_many;
use inventory_circuits::field::FieldElement;
use inventory_circuits::r1cs::ConstraintSystem;
use inventory_circuits::signal::{
    compute_signal_hash, compute_signal_hash_var, OpType, SignalInputs, SignalInputsVar,
};

fn fe(x: u64) -> FieldElement {
    FieldElement::from_u64(x)
}

#[test]
fn test_signal_hash_deterministic() {
    let hash1 = compute_signal_hash(
        fe(100),
        fe(200),
        fe(300),
        1000,
        42,
        50,
        OpType::Deposit,
        0,
        fe(7),
    );
    let hash2 = compute_signal_hash(
        fe(100),
        fe(200),
        fe(300),
        1000,
        42,
        50,
        OpType::Deposit,
        0,
        fe(7),
    );
    assert_eq!(hash1, hash2);
}

#[test]
fn test_different_op_types_different_hashes() {
    let hash_deposit = compute_signal_hash(
        fe(100),
        fe(200),
        fe(300),
        1000,
        42,
        50,
        OpType::Deposit,
        0,
        fe(7),
    );
    let hash_withdraw = compute_signal_hash(
        fe(100),
        fe(200),
        fe(300),
        1000,
        42,
        50,
        OpType::Withdraw,
        0,
        fe(7),
    );
    assert_ne!(hash_deposit, hash_withdraw);
}

#[test]
fn signal_test_in_circuit_matches_native() {
    let old_commitment = fe(100);
    let new_commitment = fe(200);
    let registry_root = fe(300);
    let max_capacity = 1000u64;
    let item_id = 42u64;
    let amount = 50u64;
    let op_type = OpType::Deposit;
    let nonce = 3u64;
    let inventory_id = fe(12345678);

    let native_hash = compute_signal_hash(
        old_commitment,
        new_commitment,
        registry_root,
        max_capacity,
        item_id,
        amount,
        op_type,
        nonce,
        inventory_id,
    );

    let mut cs = ConstraintSystem::new();
    let old_commitment_var = cs.new_witness(old_commitment);
    let new_commitment_var = cs.new_witness(new_commitment);
    let registry_root_var = cs.new_witness(registry_root);
    let max_capacity_var = cs.new_witness(fe(max_capacity));
    let item_id_var = cs.new_witness(fe(item_id));
    let amount_var = cs.new_witness(fe(amount));
    let op_type_var = cs.new_witness(op_type.to_field());
    let nonce_var = cs.new_witness(fe(nonce));
    let inventory_id_var = cs.new_witness(inventory_id);

    let circuit_hash = compute_signal_hash_var(
        &mut cs,
        &old_commitment_var,
        &new_commitment_var,
        &registry_root_var,
        &max_capacity_var,
        &item_id_var,
        &amount_var,
        &op_type_var,
        &nonce_var,
        &inventory_id_var,
    );

    let expected_var = cs.new_input(native_hash);
    circuit_hash.enforce_equal(&expected_var, &mut cs);

    assert!(cs.is_satisfied());
    assert_eq!(circuit_hash.value(), native_hash);
    println!("Signal hash constraints: {}", cs.num_constraints());
}

#[test]
fn op_codes_are_zero_and_one() {
    assert_eq!(OpType::Deposit.to_field(), fe(0));
    assert_eq!(OpType::Withdraw.to_field(), fe(1));
}

#[test]
fn the_signal_is_the_hash_of_the_nine_values_in_order() {
    let h = compute_signal_hash(
        fe(1),
        fe(2),
        fe(3),
        4,
        5,
        6,
        OpType::Withdraw,
        8,
        fe(9),
    );
    let expected =
        anemoi_hash_many(&[fe(1), fe(2), fe(3), fe(4), fe(5), fe(6), fe(1), fe(8), fe(9)]);
    assert_eq!(h, expected);
    let permuted =
        anemoi_hash_many(&[fe(2), fe(1), fe(3), fe(4), fe(5), fe(6), fe(1), fe(8), fe(9)]);
    assert_ne!(h, permuted);
}

fn inputs(nonce: u64, inventory_id: u64) -> SignalInputs {
    SignalInputs {
        old_commitment: fe(100),
        new_commitment: fe(200),
        registry_root: fe(300),
        max_capacity: 1000,
        item_id: 42,
        amount: 50,
        op_type: OpType::Deposit,
        nonce,
        inventory_id: fe(inventory_id),
    }
}

#[test]
fn signals_that_differ_in_the_nonce_alone_differ() {
    assert_ne!(inputs(0, 7).compute_hash(), inputs(1, 7).compute_hash());
}

#[test]
fn signals_that_differ_in_the_inventory_alone_differ() {
    assert_ne!(inputs(0, 7).compute_hash(), inputs(0, 8).compute_hash());
}

#[test]
fn every_input_changes_the_signal() {
    let base = inputs(0, 7);
    let h = base.compute_hash();
    let mut changed = Vec::new();
    let mut s = base;
    s.old_commitment = fe(101);
    changed.push(s.compute_hash());
    let mut s = base;
    s.new_commitment = fe(201);
    changed.push(s.compute_hash());
    let mut s = base;
    s.registry_root = fe(301);
    changed.push(s.compute_hash());
    let mut s = base;
    s.max_capacity = 1001;
    changed.push(s.compute_hash());
    let mut s = base;
    s.item_id = 43;
    changed.push(s.compute_hash());
    let mut s = base;
    s.amount = 51;
    changed.push(s.compute_hash());
    let mut s = base;
    s.op_type = OpType::Withdraw;
    changed.push(s.compute_hash());
    for c in changed {
        assert_ne!(c, h);
    }
}

#[test]
fn signal_inputs_var_matches_signal_inputs() {
    let native = inputs(5, 9);
    let mut cs = ConstraintSystem::new();
    let vars = SignalInputsVar::new(
        cs.new_witness(native.old_commitment),
        cs.new_witness(native.new_commitment),
        cs.new_witness(native.registry_root),
        cs.new_witness(fe(native.max_capacity)),
        cs.new_witness(fe(native.item_id)),
        cs.new_witness(fe(native.amount)),
        cs.new_witness(native.op_type.to_field()),
        cs.new_witness(fe(native.nonce)),
        cs.new_witness(native.inventory_id),
    );
    let h = vars.compute_hash(&mut cs);
    assert_eq!(h.value(), native.compute_hash());
    assert!(cs.is_satisfied());
}
