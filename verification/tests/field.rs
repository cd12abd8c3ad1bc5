use ark_bn254::Fr;
use ark_ff::{BigInt, Field, PrimeField};
use inventory_circuits::anemoi::constants::{
    beta, delta, exp_alpha, exp_inv_alpha, generator_inv, round_constants_c, round_constants_d,
    ALPHA, ARK_C, ARK_D, GENERATOR, INV_ALPHA, NUM_ROUNDS,
};
use inventory_circuits::field::{FieldElement, MODULUS_LIMBS};

fn fe(x: u64) -> FieldElement {
    FieldElement::from_u64(x)
}

fn to_fr(x: &FieldElement) -> Fr {
    Fr::from_bigint(BigInt::new(x.to_limbs())).unwrap()
}

fn from_fr(x: Fr) -> FieldElement {
    FieldElement::from_limbs(x.into_bigint().0).unwrap()
}

fn samples() -> Vec<FieldElement> {
    let mut out = vec![fe(0), fe(1), fe(2), fe(5), fe(u64::MAX), fe(1).neg(), fe(7).neg()];
    out.push(FieldElement::from_limbs([1, 2, 3, 4]).unwrap());
    out.push(FieldElement::from_limbs([u64::MAX, u64::MAX, u64::MAX, 0x1fff_ffff_ffff_ffff]).unwrap());
    out
}

#[test]
fn the_order_is_that_of_the_scalar_field() {
    assert_eq!(BigInt::new(MODULUS_LIMBS), Fr::MODULUS);
    assert!(FieldElement::from_limbs(MODULUS_LIMBS).is_none());
    let mut below = MODULUS_LIMBS;
    below[0] -= 1;
    assert_eq!(FieldElement::from_limbs(below), Some(fe(1).neg()));
    let mut above = MODULUS_LIMBS;
    above[0] += 1;
    assert!(FieldElement::from_limbs(above).is_none());
    assert!(FieldElement::from_limbs([0, 0, 0, u64::MAX]).is_none());
    assert!(FieldElement::from_limbs([u64::MAX, u64::MAX, u64::MAX, MODULUS_LIMBS[3] - 1]).is_some());
}

#[test]
fn small_numbers_are_themselves() {
    assert_eq!(FieldElement::zero(), fe(0));
    assert_eq!(FieldElement::one(), fe(1));
    assert_eq!(fe(9).to_limbs(), [9, 0, 0, 0]);
    assert_eq!(FieldElement::from_bool(true), fe(1));
    assert_eq!(FieldElement::from_bool(false), fe(0));
    assert!(fe(0).is_zero());
    assert!(!fe(1).is_zero());
    assert!(fe(4).equals(&fe(4)));
    assert!(!fe(4).equals(&fe(5)));
}

#[test]
fn arithmetic_is_that_of_the_field() {
    assert_eq!(fe(2).add(&fe(3)), fe(5));
    assert_eq!(fe(7).sub(&fe(3)), fe(4));
    assert_eq!(fe(6).mul(&fe(7)), fe(42));
    assert_eq!(fe(6).square(), fe(36));
    assert_eq!(fe(6).double(), fe(12));
    assert_eq!(fe(2).pow(&[10, 0, 0, 0]), fe(1024));
    assert_eq!(fe(5).pow(&[0, 0, 0, 0]), fe(1));
    assert_eq!(fe(3).sub(&fe(5)), fe(2).neg());
    assert_eq!(fe(2).neg().add(&fe(2)), fe(0));
    assert_eq!(fe(0).neg(), fe(0));
    assert_eq!(fe(0).inverse(), None);
    for x in samples() {
        for y in samples() {
            assert_eq!(to_fr(&x.add(&y)), to_fr(&x) + to_fr(&y));
            assert_eq!(to_fr(&x.sub(&y)), to_fr(&x) - to_fr(&y));
            assert_eq!(to_fr(&x.mul(&y)), to_fr(&x) * to_fr(&y));
        }
        assert_eq!(to_fr(&x.neg()), -to_fr(&x));
        assert_eq!(to_fr(&x.pow(&[3, 1, 0, 0])), to_fr(&x).pow([3u64, 1, 0, 0]));
        match x.inverse() {
            Some(i) => assert_eq!(x.mul(&i), fe(1)),
            None => assert!(x.is_zero()),
        }
        assert_eq!(from_fr(to_fr(&x)), x);
    }
}

#[test]
fn the_bits_are_those_of_the_number() {
    let x = FieldElement::from_limbs([0b101, 1 << 63, 0, 1]).unwrap();
    let set: Vec<usize> = (0..300).filter(|i| x.bit(*i)).collect();
    assert_eq!(set, vec![0, 2, 127, 192]);
    assert!(!fe(1).neg().bit(254));
    assert!(fe(1).neg().bit(253));
    assert!(!fe(u64::MAX).bit(64));
    assert!(fe(u64::MAX).bit(63));
}

#[test]
fn the_constants_are_what_they_are_said_to_be() {
    assert_eq!(NUM_ROUNDS, 21);
    assert_eq!(ALPHA, 5);
    assert_eq!(GENERATOR, 7);
    assert_eq!(generator_inv().mul(&fe(GENERATOR)), fe(1));
    assert_eq!(beta().mul(&fe(GENERATOR + 1)), fe(1));
    assert_eq!(delta(), beta().mul(&fe(GENERATOR * GENERATOR)));
    assert_eq!(to_fr(&generator_inv()), Fr::from(GENERATOR).inverse().unwrap());
    assert_eq!(to_fr(&beta()), (Fr::from(1u64) + Fr::from(GENERATOR)).inverse().unwrap());
    let c = round_constants_c();
    let d = round_constants_d();
    assert_eq!(c.len(), NUM_ROUNDS);
    assert_eq!(d.len(), NUM_ROUNDS);
    assert_eq!(c[0], fe(35));
    for i in 0..NUM_ROUNDS {
        assert_eq!(c[i].to_limbs(), ARK_C[i]);
        assert_eq!(d[i].to_limbs(), ARK_D[i]);
    }
    assert_eq!(
        d[20].to_limbs(),
        [0xEDADEEBBFFAAAAFA, 0xABBBEEEBAFDDCBAF, 0xCAEBAFBFACDDEBBC, 0x0EDADADA6DFFAAAA]
    );
}

#[test]
fn the_inverse_exponent_inverts_five_modulo_the_group_order() {
    // five times the exponent is one more than four times the order of the
    // group: compare the low limbs and the fifth power of a fifth root
    let five_e = Fr::from_bigint(BigInt::new(INV_ALPHA)).unwrap() * Fr::from(5u64);
    // modulo the field order, 1 + 4 (p - 1) is -3
    assert_eq!(five_e, -Fr::from(3u64));
    assert_eq!(exp_alpha(fe(2)), fe(32));
    assert_eq!(exp_alpha(fe(0)), fe(0));
    assert_eq!(exp_inv_alpha(fe(32)), fe(2));
    assert_eq!(exp_inv_alpha(fe(0)), fe(0));
    assert_eq!(exp_inv_alpha(fe(1)), fe(1));
}

#[test]
fn the_fifth_power_undoes_the_fifth_root_and_the_other_way_round() {
    for x in samples() {
        assert_eq!(exp_alpha(exp_inv_alpha(x)), x);
        assert_eq!(exp_inv_alpha(exp_alpha(x)), x);
    }
    for i in 0..50u64 {
        let x = fe(i).mul(&fe(0x9e3779b97f4a7c15)).add(&fe(i));
        assert_eq!(exp_alpha(exp_inv_alpha(x)), x);
    }
}
