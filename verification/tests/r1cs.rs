use inventory_circuits::field::FieldElement;
use inventory_circuits::r1cs::{Boolean, ConstraintSystem, FpVar, Term, Variable};

fn fe(x: u64) -> FieldElement {
    FieldElement::from_u64(x)
}

#[test]
fn a_new_system_holds_the_constant_one_alone() {
    let cs = ConstraintSystem::new();
    assert_eq!(cs.num_instance_variables(), 1);
    assert_eq!(cs.num_witness_variables(), 0);
    assert_eq!(cs.num_constraints(), 0);
    assert_eq!(cs.instance_assignment(), &[fe(1)]);
    assert!(cs.public_inputs().is_empty());
    assert!(cs.is_satisfied());
    assert_eq!(cs.which_is_unsatisfied(), None);
}

#[test]
fn variables_are_numbered_by_kind() {
    let mut cs = ConstraintSystem::new();
    let a = cs.new_witness(fe(5));
    let b = cs.new_input(fe(6));
    let c = cs.new_witness(fe(7));
    assert_eq!(a.terms()[0].variable, Variable { witness: true, index: 0 });
    assert_eq!(b.terms()[0].variable, Variable { witness: false, index: 1 });
    assert_eq!(c.terms()[0].variable, Variable { witness: true, index: 1 });
    assert_eq!(cs.witness_assignment(), &[fe(5), fe(7)]);
    assert_eq!(cs.instance_assignment(), &[fe(1), fe(6)]);
    assert_eq!(cs.public_inputs(), vec![fe(6)]);
    assert_eq!(cs.num_constraints(), 0);
}

#[test]
fn linear_operations_cost_no_constraint() {
    let mut cs = ConstraintSystem::new();
    let a = cs.new_witness(fe(5));
    let b = cs.new_witness(fe(3));
    let sum = a.add(&b);
    let difference = a.sub(&b);
    let wrapped = b.sub(&a);
    let scaled = a.scale(&fe(4));
    let shifted = a.add_constant(&fe(10));
    assert_eq!(sum.value(), fe(8));
    assert_eq!(difference.value(), fe(2));
    assert_eq!(wrapped.value(), fe(2).neg());
    assert_eq!(scaled.value(), fe(20));
    assert_eq!(shifted.value(), fe(15));
    assert_eq!(FpVar::constant(fe(9)).value(), fe(9));
    assert_eq!(FpVar::zero().value(), fe(0));
    assert_eq!(FpVar::one().value(), fe(1));
    assert_eq!(cs.num_constraints(), 0);
    assert_eq!(cs.num_witness_variables(), 2);
    for v in [&sum, &difference, &wrapped, &scaled, &shifted] {
        assert_eq!(cs.evaluate(v.terms()), v.value());
    }
}

#[test]
fn a_product_costs_one_constraint_and_one_witness() {
    let mut cs = ConstraintSystem::new();
    let a = cs.new_witness(fe(5));
    let b = cs.new_witness(fe(3));
    let p = a.add(&b).mul(&a.sub(&b), &mut cs);
    assert_eq!(p.value(), fe(16));
    assert_eq!(cs.num_constraints(), 1);
    assert_eq!(cs.num_witness_variables(), 3);
    let s = a.square(&mut cs);
    assert_eq!(s.value(), fe(25));
    let r = a.add(&b).reduce(&mut cs);
    assert_eq!(r.value(), fe(8));
    assert_eq!(r.terms().len(), 1);
    assert_eq!(cs.num_constraints(), 3);
    assert!(cs.is_satisfied());
    for c in cs.constraints() {
        let left = cs.evaluate(&c.a).mul(&cs.evaluate(&c.b));
        assert_eq!(left, cs.evaluate(&c.c));
    }
}

#[test]
fn equality_is_enforced() {
    let mut cs = ConstraintSystem::new();
    let a = cs.new_witness(fe(5));
    let b = cs.new_witness(fe(3));
    a.enforce_equal(&b.add_constant(&fe(2)), &mut cs);
    assert!(cs.is_satisfied());
    a.enforce_equal(&b, &mut cs);
    assert!(!cs.is_satisfied());
    assert_eq!(cs.which_is_unsatisfied(), Some(1));
    // nothing that comes later mends it
    a.enforce_equal(&a, &mut cs);
    assert!(!cs.is_satisfied());
}

#[test]
fn a_constraint_of_any_three_combinations_can_be_enforced() {
    let mut cs = ConstraintSystem::new();
    let a = cs.new_witness(fe(6));
    let b = cs.new_witness(fe(7));
    cs.enforce_constraint(&a, &b, &FpVar::constant(fe(42)));
    assert!(cs.is_satisfied());
    cs.enforce_constraint(&a, &b, &FpVar::constant(fe(43)));
    assert!(!cs.is_satisfied());
    let c = &cs.constraints()[0];
    assert_eq!(c.a.len(), 1);
    assert_eq!(c.c[0].coeff, fe(42));
    assert_eq!(c.c[0].variable, Variable { witness: false, index: 0 });
}

#[test]
fn evaluate_sums_the_terms() {
    let mut cs = ConstraintSystem::new();
    cs.new_witness(fe(5));
    cs.new_input(fe(11));
    let terms = vec![
        Term { coeff: fe(2), variable: Variable { witness: true, index: 0 } },
        Term { coeff: fe(3), variable: Variable { witness: false, index: 1 } },
        Term { coeff: fe(4), variable: Variable { witness: false, index: 0 } },
    ];
    assert_eq!(cs.evaluate(&terms), fe(47));
    assert_eq!(cs.evaluate(&[]), fe(0));
}

#[test]
fn booleans_select_and_combine() {
    let mut cs = ConstraintSystem::new();
    let t = Boolean::new_witness(&mut cs, true);
    let f = Boolean::new_witness(&mut cs, false);
    assert_eq!(cs.num_constraints(), 2);
    assert!(t.value());
    assert!(!f.value());
    assert_eq!(t.to_fp().value(), fe(1));
    assert_eq!(f.to_fp().value(), fe(0));
    assert!(Boolean::constant(true).value());
    assert!(!Boolean::constant(false).value());
    let a = cs.new_witness(fe(10));
    let b = cs.new_witness(fe(20));
    assert_eq!(t.select(&a, &b, &mut cs).value(), fe(10));
    assert_eq!(f.select(&a, &b, &mut cs).value(), fe(20));
    assert!(t.or(&f, &mut cs).value());
    assert!(f.or(&t, &mut cs).value());
    assert!(t.or(&t, &mut cs).value());
    assert!(!f.or(&f, &mut cs).value());
    assert!(cs.is_satisfied());
    t.enforce_true(&mut cs);
    f.enforce_false(&mut cs);
    assert!(cs.is_satisfied());
    f.enforce_true(&mut cs);
    assert!(!cs.is_satisfied());
}

#[test]
fn enforce_false_fails_on_true() {
    let mut cs = ConstraintSystem::new();
    let t = Boolean::new_witness(&mut cs, true);
    t.enforce_false(&mut cs);
    assert!(!cs.is_satisfied());
}

#[test]
fn is_eq_tells_equal_from_different() {
    let mut cs = ConstraintSystem::new();
    let a = cs.new_witness(fe(10));
    let b = cs.new_witness(fe(20));
    let c = cs.new_witness(fe(10));
    assert!(!a.is_eq(&b, &mut cs).value());
    assert!(a.is_eq(&c, &mut cs).value());
    assert!(a.is_eq(&a, &mut cs).value());
    assert!(b.is_eq(&a.add(&c), &mut cs).value());
    assert!(!a.is_eq(&FpVar::zero(), &mut cs).value());
    assert_eq!(cs.num_constraints(), 10);
    assert!(cs.is_satisfied());
}

#[test]
fn clones_are_the_same_variable() {
    let mut cs = ConstraintSystem::new();
    let a = cs.new_witness(fe(10));
    let b = a.clone();
    assert_eq!(b.value(), a.value());
    assert_eq!(b.terms()[0].variable, a.terms()[0].variable);
    let t = Boolean::new_witness(&mut cs, true);
    assert!(t.clone().value());
}
