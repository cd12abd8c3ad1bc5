use inventory_circuits::anemoi::constants::NUM_ROUNDS;
use inventory_circuits::anemoi::gadgets::{
    anemoi_hash_many_var, anemoi_hash_two_var, anemoi_hash_var, exp_alpha_var, exp_inv_alpha_var,
};
use inventory_circuits::anemoi::native::{anemoi_hash, anemoi_hash_many, anemoi_hash_two};
use inventory_circuits::field::FieldElement;
use inventory_circuits::r1cs::{ConstraintSystem, FpVar};

fn fe(x: u64) -> FieldElement {
    FieldElement::from_u64(x)
}

#[test]
fn test_circuit_matches_native() {
    let a = fe(123);
    let b = fe(456);
    let native_hash = anemoi_hash_two(a, b);

    let mut cs = ConstraintSystem::new();
    let a_var = cs.new_witness(a);
    let b_var = cs.new_witness(b);
    let hash_var = anemoi_hash_two_var(&mut cs, &a_var, &b_var);

    assert!(cs.is_satisfied(), "Circuit should be satisfied");
    assert_eq!(hash_var.value(), native_hash, "Circuit hash should match native hash");
    println!("Anemoi 2:1 hash constraints: {}", cs.num_constraints());
}

#[test]
fn test_constraint_count() {
    let mut cs = ConstraintSystem::new();
    let a_var = cs.new_witness(fe(1));
    let b_var = cs.new_witness(fe(2));
    let _ = anemoi_hash_two_var(&mut cs, &a_var, &b_var);

    let num_constraints = cs.num_constraints();
    println!("Anemoi constraint count: {}", num_constraints);
    assert!(num_constraints < 200, "Expected < 200 constraints, got {}", num_constraints);
    assert_eq!(num_constraints, 7 * NUM_ROUNDS);
}

#[test]
fn test_exp_inv_alpha_correct() {
    let mut cs = ConstraintSystem::new();
    let x = fe(42);
    let x_var = cs.new_witness(x);
    let inv = exp_inv_alpha_var(&mut cs, &x_var);

    assert!(cs.is_satisfied());
    let inv_val = inv.value();
    let inv5 = inv_val.pow(&[5, 0, 0, 0]);
    assert_eq!(inv5, x, "inv^5 should equal x");
}

#[test]
fn test_different_inputs_different_outputs() {
    let mut cs = ConstraintSystem::new();
    let a1 = cs.new_witness(fe(1));
    let b1 = cs.new_witness(fe(2));
    let a2 = cs.new_witness(fe(1));
    let b2 = cs.new_witness(fe(3));

    let h1 = anemoi_hash_two_var(&mut cs, &a1, &b1);
    let h2 = anemoi_hash_two_var(&mut cs, &a2, &b2);

    assert!(cs.is_satisfied());
    assert_ne!(h1.value(), h2.value(), "Different inputs should produce different hashes");
}

#[test]
fn exp_alpha_var_is_the_fifth_power() {
    let mut cs = ConstraintSystem::new();
    let x = cs.new_witness(fe(3));
    let before = cs.num_constraints();
    let y = exp_alpha_var(&x, &mut cs);
    assert_eq!(y.value(), fe(243));
    assert_eq!(cs.num_constraints(), before + 3);
    assert!(cs.is_satisfied());
}

#[test]
fn hash_var_of_one_input_matches_native() {
    let mut cs = ConstraintSystem::new();
    let x = cs.new_witness(fe(77));
    let h = anemoi_hash_var(&mut cs, &x);
    assert_eq!(h.value(), anemoi_hash(fe(77)));
    assert_eq!(h.value(), anemoi_hash_two(fe(77), fe(0)));
    assert!(cs.is_satisfied());
}

#[test]
fn hash_many_var_matches_native_for_every_length() {
    for n in 0..5u64 {
        let inputs: Vec<FieldElement> = (0..n).map(|i| fe(10 + i)).collect();
        let mut cs = ConstraintSystem::new();
        let vars: Vec<FpVar> = inputs.iter().map(|x| cs.new_witness(*x)).collect();
        let h = anemoi_hash_many_var(&mut cs, &vars);
        assert_eq!(h.value(), anemoi_hash_many(&inputs), "length {}", n);
        assert!(cs.is_satisfied(), "length {}", n);
    }
}

#[test]
fn a_wrong_fifth_root_is_not_accepted() {
    // the constraint of the root says: the fifth power of the witness is
    // the variable; binding the root of 42 to 43 cannot be met
    let mut cs = ConstraintSystem::new();
    let x = cs.new_witness(fe(42));
    let other = cs.new_witness(fe(43));
    let root = exp_inv_alpha_var(&mut cs, &x);
    let fifth = exp_alpha_var(&root, &mut cs);
    assert!(cs.is_satisfied());
    fifth.enforce_equal(&other, &mut cs);
    assert!(!cs.is_satisfied());
}
