use inventory_circuits::anemoi::constants::{exp_alpha, exp_inv_alpha};
use inventory_circuits::anemoi::native::{anemoi_hash_two, apply_mds, apply_sbox, AnemoiState};
use inventory_circuits::field::FieldElement;

fn fe(x: u64) -> FieldElement {
    FieldElement::from_u64(x)
}

#[test]
fn test_inv_alpha_correct() {
    let x = fe(42);
    let x_inv = exp_inv_alpha(x);
    let x_back = exp_alpha(x_inv);
    assert_eq!(x, x_back, "x^(1/5)^5 should equal x");
}

#[test]
fn test_hash_deterministic() {
    let a = fe(1);
    let b = fe(2);
    let h1 = anemoi_hash_two(a, b);
    let h2 = anemoi_hash_two(a, b);
    assert_eq!(h1, h2, "Hash should be deterministic");
}

#[test]
fn test_hash_different_inputs() {
    let h1 = anemoi_hash_two(fe(1), fe(2));
    let h2 = anemoi_hash_two(fe(1), fe(3));
    let h3 = anemoi_hash_two(fe(2), fe(2));
    assert_ne!(h1, h2, "Different inputs should produce different hashes");
    assert_ne!(h1, h3, "Different inputs should produce different hashes");
    assert_ne!(h2, h3, "Different inputs should produce different hashes");
}

#[test]
fn test_sbox_invertible() {
    let before = AnemoiState::from_elements(fe(42), fe(123));
    let mut state = before.clone();
    apply_sbox(&mut state);
    assert!(state.x != before.x || state.y != before.y);
}

#[test]
fn test_mds_linear() {
    let mut a = AnemoiState::from_elements(fe(1), fe(2));
    let mut b = AnemoiState::from_elements(fe(3), fe(4));
    let mut sum = AnemoiState::from_elements(fe(4), fe(6));
    apply_mds(&mut a);
    apply_mds(&mut b);
    apply_mds(&mut sum);
    assert_eq!(a.x.add(&b.x), sum.x);
    assert_eq!(a.y.add(&b.y), sum.y);
}

#[test]
fn test_zero_hash() {
    let h = anemoi_hash_two(fe(0), fe(0));
    assert_ne!(h, fe(0), "Hash of zeros should be non-zero");
}
