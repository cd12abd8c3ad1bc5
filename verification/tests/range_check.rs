use inventory_circuits::field::FieldElement;
use inventory_circuits::r1cs::ConstraintSystem;
use inventory_circuits::range_check::{
    enforce_geq, enforce_range, enforce_u32_range, enforce_u64_range, fits_range, RANGE_BITS,
};

fn fe(x: u64) -> FieldElement {
    FieldElement::from_u64(x)
}

#[test]
fn test_range_check_valid() {
    let mut cs = ConstraintSystem::new();
    let value = cs.new_witness(fe(1000));
    enforce_u64_range(&mut cs, &value);
    assert!(cs.is_satisfied());
}

#[test]
fn test_range_check_max_u32() {
    let mut cs = ConstraintSystem::new();
    let value = cs.new_witness(fe(u32::MAX as u64));
    enforce_u32_range(&mut cs, &value);
    assert!(cs.is_satisfied());
}

#[test]
fn test_range_check_exceeds_u32() {
    let mut cs = ConstraintSystem::new();
    let value = cs.new_witness(fe(1u64 << 32));
    enforce_u32_range(&mut cs, &value);
    assert!(!cs.is_satisfied());
}

#[test]
fn test_range_check_overflow() {
    let mut cs = ConstraintSystem::new();
    let wrapped_value = fe(5).neg();
    let value = cs.new_witness(wrapped_value);
    enforce_u64_range(&mut cs, &value);
    assert!(!cs.is_satisfied());
}

#[test]
fn test_geq_valid() {
    let mut cs = ConstraintSystem::new();
    let a = cs.new_witness(fe(100));
    let b = cs.new_witness(fe(50));
    enforce_geq(&mut cs, &a, &b);
    assert!(cs.is_satisfied());
}

#[test]
fn test_geq_equal() {
    let mut cs = ConstraintSystem::new();
    let a = cs.new_witness(fe(100));
    let b = cs.new_witness(fe(100));
    enforce_geq(&mut cs, &a, &b);
    assert!(cs.is_satisfied());
}

#[test]
fn test_geq_invalid() {
    let mut cs = ConstraintSystem::new();
    let a = cs.new_witness(fe(50));
    let b = cs.new_witness(fe(100));
    enforce_geq(&mut cs, &a, &b);
    assert!(!cs.is_satisfied());
}

#[test]
fn range_bits_is_thirty_two() {
    assert_eq!(RANGE_BITS, 32);
}

#[test]
fn enforce_range_accepts_just_below_the_bound_and_rejects_the_bound() {
    for bits in [0usize, 1, 7, 8, 31, 32, 33, 63] {
        let bound = 1u64 << bits;
        if bound > 0 {
            let mut cs = ConstraintSystem::new();
            let v = cs.new_witness(fe(bound - 1));
            enforce_range(&mut cs, &v, bits);
            assert!(cs.is_satisfied(), "{} bits, value {}", bits, bound - 1);
        }
        let mut cs = ConstraintSystem::new();
        let v = cs.new_witness(fe(bound));
        enforce_range(&mut cs, &v, bits);
        assert!(!cs.is_satisfied(), "{} bits, value {}", bits, bound);
    }
}

#[test]
fn enforce_range_reads_the_bits_of_every_limb() {
    // two to the 200 plus two to the 70 plus 5
    let value = FieldElement::from_limbs([5, 1 << 6, 0, 1 << 8]).unwrap();
    let mut cs = ConstraintSystem::new();
    let v = cs.new_witness(value);
    enforce_range(&mut cs, &v, 201);
    assert!(cs.is_satisfied());
    let mut cs = ConstraintSystem::new();
    let v = cs.new_witness(value);
    enforce_range(&mut cs, &v, 200);
    assert!(!cs.is_satisfied());
}

#[test]
fn enforce_range_costs_one_constraint_for_each_bit_and_one_more() {
    let mut cs = ConstraintSystem::new();
    let v = cs.new_witness(fe(9));
    enforce_range(&mut cs, &v, 32);
    assert_eq!(cs.num_constraints(), 33);
}

#[test]
fn a_bound_wider_than_the_field_accepts_every_element() {
    let mut cs = ConstraintSystem::new();
    let v = cs.new_witness(fe(1).neg());
    enforce_range(&mut cs, &v, 300);
    assert!(cs.is_satisfied());
}

#[test]
fn geq_fails_where_the_difference_exceeds_the_range() {
    // the check is a range check of the difference: a capacity far above
    // the volume does not pass
    let mut cs = ConstraintSystem::new();
    let a = cs.new_witness(fe(1u64 << 32));
    let b = cs.new_witness(fe(0));
    enforce_geq(&mut cs, &a, &b);
    assert!(!cs.is_satisfied());
    let mut cs = ConstraintSystem::new();
    let a = cs.new_witness(fe((1u64 << 32) - 1));
    let b = cs.new_witness(fe(0));
    enforce_geq(&mut cs, &a, &b);
    assert!(cs.is_satisfied());
}

#[test]
fn a_number_fits_the_range_just_where_the_constraints_can_be_met() {
    for (value, expected) in [
        (0u64, true),
        (1, true),
        ((1u64 << 32) - 1, true),
        (1u64 << 32, false),
        ((1u64 << 32) + 1, false),
        (1u64 << 33, false),
        (u64::MAX, false),
    ] {
        assert_eq!(fits_range(value), expected, "value {}", value);
        let mut cs = ConstraintSystem::new();
        let v = cs.new_witness(fe(value));
        enforce_u32_range(&mut cs, &v);
        assert_eq!(cs.is_satisfied(), expected, "value {}", value);
    }
}
