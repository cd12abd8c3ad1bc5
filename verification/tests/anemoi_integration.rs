use inventory_circuits::anemoi::gadgets::anemoi_hash_two_var;
use inventory_circuits::anemoi::native::anemoi_hash_two;
use inventory_circuits::field::FieldElement;
use inventory_circuits::r1cs::ConstraintSystem;

fn fe(x: u64) -> FieldElement {
    FieldElement::from_u64(x)
}

#[test]
fn test_anemoi_basic() {
    let h = anemoi_hash_two(fe(1), fe(2));
    assert_ne!(h, fe(0));
}

#[test]
fn test_anemoi_circuit_consistency() {
    let test_cases = [
        (0u64, 0u64),
        (1u64, 0u64),
        (0u64, 1u64),
        (1u64, 2u64),
        (100u64, 200u64),
        (u64::MAX, u64::MAX),
    ];

    for (a, b) in test_cases {
        let a_fr = fe(a);
        let b_fr = fe(b);
        let native = anemoi_hash_two(a_fr, b_fr);

        let mut cs = ConstraintSystem::new();
        let a_var = cs.new_witness(a_fr);
        let b_var = cs.new_witness(b_fr);
        let h_var = anemoi_hash_two_var(&mut cs, &a_var, &b_var);

        assert!(cs.is_satisfied(), "Circuit unsatisfied for ({}, {})", a, b);
        assert_eq!(h_var.value(), native, "Mismatch for ({}, {})", a, b);
    }
}

#[test]
fn test_anemoi_collision_resistance() {
    let mut hashes = std::collections::HashSet::new();

    for i in 0u64..100 {
        for j in 0u64..10 {
            let h = anemoi_hash_two(fe(i), fe(j));
            let h_limbs = h.to_limbs();
            assert!(hashes.insert(h_limbs), "Collision detected at ({}, {})", i, j);
        }
    }
}
