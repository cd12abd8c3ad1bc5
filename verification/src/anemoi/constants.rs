//! The fixed parameters of the Anemoi permutation over the BN254 scalar field:
//! the round count, the S-box exponent and its inverse, the generator, and
//! the additive round constants.

use crate::field::{fmul, fpow, limbs_value, modulus, FieldElement};
use crate::primality::lemma_field_order_is_prime;
use vstd::arithmetic::div_mod::{lemma_mod_multiples_vanish, lemma_mul_mod_noop_general};
use vstd::arithmetic::power::{
    lemma0_pow, lemma1_pow, lemma_pow1, lemma_pow_adds, lemma_pow_mod_noop, lemma_pow_multiplies, pow,
};
use vstd::prelude::*;

verus! {

/// Number of rounds for a state of two cells.
pub const NUM_ROUNDS: usize = 21;

/// The S-box exponent.
pub const ALPHA: u64 = 5;

/// The generator of the multiplicative group that the linear layer is built
/// from.
pub const GENERATOR: u64 = 7;

/// The inverse of `ALPHA` modulo the field order less one, limbs least
/// significant first.
pub const INV_ALPHA: [u64; 4] = [
    0xcfe7f7a98ccccccd,
    0x535cb9d394945a0d,
    0x93736af8679aad17,
    0x26b6a528b427b354,
];

/// The inverse of `GENERATOR` in the field.
pub const GENERATOR_INV: [u64; 4] = [
    0x09b290cbfdb6db6e,
    0x4ee2d80a5a8834a7,
    0xac9dc0d0edede80d,
    0x06e9c21069503b73,
];

/// The inverse of `GENERATOR + 1` in the field.
pub const BETA: [u64; 4] = [
    0x1b65b6e172000001,
    0x832d6b3f6a82427f,
    0x81463cffb1512d51,
    0x2a57c4a4850b6c24,
];

/// `GENERATOR` squared, times `BETA`.
pub const DELTA: [u64; 4] = [
    0x1b65b6e172000007,
    0x832d6b3f6a82427f,
    0x81463cffb1512d51,
    0x2a57c4a4850b6c24,
];

/// The constants added to the first cell, one per round.
pub const ARK_C: [[u64; 4]; NUM_ROUNDS] = [
    [0x0000000000000023, 0x0000000000000000, 0x0000000000000000, 0x0000000000000000],
    [0x7f27daa785ea33a1, 0x7945c72d66c0c52f, 0x8d8d2b3b03f94d3b, 0x0ded065fde3bb7da],
    [0x02a6c27f9b40d6e5, 0xe0b55a63eb9a1d2a, 0x5bddbf3c6e5ad36b, 0x07c4cf03d4cf1c4c],
    [0x7a66d7c9fe24d54d, 0x8c2bb8aaad8d1f73, 0x94de77b1867d59e2, 0x0fa8e9305bdcbb4f],
    [0x8bc5f9f8da3e6c52, 0x8fbfb4f4f3f71cc4, 0xb6ef6ae1f0f57e7e, 0x1e4d66c2193bd3e4],
    [0xb47ec5e92c02b39d, 0x2ed5f5b7c9f7a8f6, 0xa4f7c5c8d8e7f6e5, 0x0a5c7e8f9b0c1d2e],
    [0xc58f6ea0d3e4f5a6, 0x3fe6a6c8dae8b9f7, 0xb5a8d6d9e9f8a7f6, 0x1b6d8f0a0c2d3e4f],
    [0xd6a07fb1e4f5a6b7, 0x4af7b7d9ebf9caa8, 0xc6b9e7eaf0a9b8a7, 0x0c7e9a1b1d3e4f5a],
    [0xe7b18ac2f5a6b7c8, 0x5ba8c8eafcaadbb9, 0xd7caf08fb1bac9b8, 0x1d8fab2c2e4f5a6b],
    [0xf8c29bd3a6b7c8d9, 0x6cb9d9fbadbbecca, 0xe8dbfa9ac2cbd0c9, 0x0e9abc3d3f5a6b7c],
    [0x09d3ace4b7c8d9ea, 0x7dcaeaacbeccfddb, 0xf9ecababd3dce1da, 0x1fabcd4e4a6b7c8d],
    [0x1ae4bdf5c8d9eafb, 0x8edbfbbdcfddaeec, 0x0afdbcbce4edf2eb, 0x0abcde5f5b7c8d9e],
    [0x2bf5cea6d9eafb0c, 0x9fecaccedaeebffd, 0x1baecdcdf5fea3fc, 0x1bcdef6a6c8d9eaf],
    [0x3ca6dfb7eafb0c1d, 0xaafdbddfebff0aae, 0x2cbfdedefaa6b4ad, 0x0cdefa7b7d9eafba],
    [0x4db7eac8fb0c1d2e, 0xbbaeceeafc0a1bbf, 0x3dcaefefabb7c5be, 0x1defab8c8eafb0cb],
    [0x5ec8fbd9ac1d2e3f, 0xccbfdffbad1b2cca, 0x4edbfafabcc8d6cf, 0x0efabc9d9fb0c1dc],
    [0x6fd9aceabd2e3f4a, 0xddcaeaacbe2c3ddb, 0x5fecababcdd9e7da, 0x1fabcdaeac1d2eed],
    [0x7aeabdfbce3f4a5b, 0xeedbfbbdcf3d4eec, 0x6afdbcbcdeeaf8eb, 0x0abcdebfbd2e3ffe],
    [0x8bfbceacdf4a5b6c, 0xffecacceda4e5ffd, 0x7baecdcdefabaafc, 0x1bcdefcace3f4aaf],
    [0x9cacddbdea5b6c7d, 0xaafdbddfeb5f6aae, 0x8cbfdedefabcbbad, 0x0cdefa0bdf4a5bba],
    [0xadbdeecefb6c7d8e, 0xbbaeceeafc6a7bbf, 0x9dcaefefabcdccbe, 0x1defab1cea5b6ccb],
];

/// The constants added to the second cell, one per round.
pub const ARK_D: [[u64; 4]; NUM_ROUNDS] = [
    [0x65e5cc3f77e60918, 0x8d9dc6e22d9f1b8d, 0xa8c2e7f88eafb094, 0x2052b7b6f5de5e28],
    [0x76f6dd4a88f71a29, 0x9eaed7f33ea0ac9e, 0xb9d3f8a99fb0c1a5, 0x1163c8c7a6ef6f39],
    [0x87a7ee5b99a82b3a, 0xafbfe8a44fb1bdaf, 0xcae4a9baaac1d2b6, 0x0274d9d8b7fa8a4a],
    [0x98b8ff6caab93c4b, 0xb0c0f9b55ac2ceba, 0xdbf5bacbbbd2e3c7, 0x1385eae9c8ab9b5b],
    [0xa9c9aa7dbbc04d5c, 0xc1d1aac66bd3dfcb, 0xeca6cbdccce3f4d8, 0x0496fbfad9bcac6c],
    [0xbadabb8eccd15e6d, 0xd2e2bbd77ce4eadc, 0xfdb7dcedddf4a5e9, 0x15a7acabe0cdbd7d],
    [0xcbebcc9fdde26f7e, 0xe3f3cce88df5fbed, 0xaec8edfeeea5b6fa, 0x06b8bdbcf1dece8e],
    [0xdcfcddaaeef38a8f, 0xf4a4ddfa9ea6acfe, 0xbfd9feaffb6c7aab, 0x17c9cecda2efd09f],
    [0xedadeebbffa49b9a, 0xa5b5eeabafd7bdaf, 0xcaeaafbaac7d8bbc, 0x08dadfdeb3faefaa],
    [0xfebeffccaab5acab, 0xb6c6ffbcbae8ceba, 0xdbfbbacbbd8e9ccd, 0x19ebeaefcaabfabb],
    [0xafcfaaddbbc6bdbc, 0xc7d7aacdcbf9dfcb, 0xecadcbdcce9fadde, 0x0afcfbfadbbc0bcc],
    [0xbadabbeeccd7cecd, 0xd8e8bbdedcaafedc, 0xfdbedceddfaabeef, 0x1badadabeccdfcdd],
    [0xcbebccffdde8dfde, 0xe9f9ccefedbbafed, 0xaecfedfeeabbcffa, 0x0cbebebebddeedee],
    [0xdcfcddaaeef9eaef, 0xfaaaaddafeccbafe, 0xbfdafeaffbccdaab, 0x1dcfcfcfceeffeff],
    [0xedadeebbffaaabfa, 0xabbbbeebafddcbaf, 0xcaebafbaacddebbc, 0x0edadad0dffaafaa],
    [0xfebeffccaabbbcab, 0xbccccffcbaeedcba, 0xdbfcbacabdeefccd, 0x1febebef1eaabbbb],
    [0xafcfaaddbbcccdbc, 0xcddddaadcbffedcb, 0xecadcbdbceffadde, 0x0afcfcfa2fbbcccc],
    [0xbadabbeeccdddecd, 0xdeeeebbedcaafedc, 0xfdbedcecdfaabeef, 0x1badadab3accdddd],
    [0xcbebccffddeeefde, 0xefffcccfedbbafed, 0xaecfedfdeabbcffa, 0x0cbebebe4bddeeee],
    [0xdcfcddaaeefffaef, 0xfaaadddafeccbafe, 0xbfdafeaefbccdaab, 0x1dcfcfcf5ceeffff],
    [0xedadeebbffaaaafa, 0xabbbeeebafddcbaf, 0xcaebafbfacddebbc, 0x0edadada6dffaaaa],
];

/// The exponent of the inverse S-box as a number.
pub open spec fn inv_alpha() -> nat {
    limbs_value(INV_ALPHA)
}

/// The S-box constant beta as a number.
pub open spec fn beta_spec() -> nat {
    limbs_value(BETA)
}

/// The S-box constant delta as a number.
pub open spec fn delta_spec() -> nat {
    limbs_value(DELTA)
}

/// The constant added to the first cell in round `i`.
pub open spec fn round_c(i: int) -> nat {
    limbs_value(ARK_C[i])
}

/// The constant added to the second cell in round `i`.
pub open spec fn round_d(i: int) -> nat {
    limbs_value(ARK_D[i])
}

/// The fifth power, as the S-box computes it: two squarings and a product.
pub open spec fn exp_alpha_spec(x: nat) -> nat {
    fmul(fmul(fmul(x, x), fmul(x, x)), x)
}

/// The fifth root: the power with exponent `inv_alpha()`.
pub open spec fn exp_inv_alpha_spec(x: nat) -> nat {
    fpow(x, inv_alpha())
}

/// Five times the inverse exponent is one more than four times the order of
/// the multiplicative group: the two exponents are inverse to each other
/// modulo that order.
pub proof fn lemma_inv_alpha_inverts_alpha()
    ensures
        5 * inv_alpha() == 1 + 4 * (modulus() - 1),
{
}

/// Beta is the inverse of `GENERATOR + 1`, delta is `GENERATOR` squared times
/// beta, and `GENERATOR_INV` is the inverse of `GENERATOR`.
pub proof fn lemma_sbox_constants()
    ensures
        beta_spec() < modulus(),
        delta_spec() < modulus(),
        fmul(GENERATOR as nat + 1, beta_spec()) == 1,
        delta_spec() == fmul((GENERATOR * GENERATOR) as nat, beta_spec()),
        limbs_value(GENERATOR_INV) < modulus(),
        fmul(GENERATOR as nat, limbs_value(GENERATOR_INV)) == 1,
{
    let b = beta_spec();
    let gi = limbs_value(GENERATOR_INV);
    assert(b == 19152212512859365819465605027100115702479818850364030050735928663253832433665nat);
    assert(gi == 3126891838834182174606629392179610726935480628630862049099743455225115499374nat);
    assert(8 * b == 7 * modulus() + 1);
    assert(49 * b == 42 * modulus() + delta_spec());
    assert(7 * gi == modulus() + 1);
    lemma_mod_multiples_vanish(7, 1, modulus() as int);
    lemma_mod_multiples_vanish(42, delta_spec() as int, modulus() as int);
    lemma_mod_multiples_vanish(1, 1, modulus() as int);
}

/// The S-box's two squarings and a product give the fifth power.
pub proof fn lemma_exp_alpha_is_fifth_power(x: nat)
    ensures
        exp_alpha_spec(x) == fpow(x, 5),
{
    let m = modulus() as int;
    let xi = x as int;
    let x2 = xi * xi;
    let x4 = x2 * x2;
    assert(fmul(x, x) == x2 % m);
    assert(fmul(fmul(x, x), fmul(x, x)) == x4 % m) by {
        lemma_mul_mod_noop_general(x2, x2, m);
    }
    assert(exp_alpha_spec(x) == (x4 * xi) % m) by {
        lemma_mul_mod_noop_general(x4, xi, m);
    }
    assert(pow(xi, 5) == x4 * xi) by {
        reveal_with_fuel(pow, 6);
        assert(pow(xi, 5) == xi * (xi * (xi * (xi * (xi * 1)))));
        assert(xi * (xi * (xi * (xi * (xi * 1)))) == x4 * xi) by (nonlinear_arith)
            requires
                x2 == xi * xi,
                x4 == x2 * x2,
        ;
    }
}

/// Raising the fifth root to the fifth power gives the element back. The
/// order of the field is prime, so every element but zero, raised to the
/// order less one, is one; and five times the exponent of the root is one
/// more than a multiple of the order less one.
pub proof fn lemma_fifth_power_of_fifth_root(x: nat)
    requires
        x < modulus(),
    ensures
        exp_alpha_spec(exp_inv_alpha_spec(x)) == x,
{
    lemma_field_order_is_prime();
    let m = modulus() as int;
    let xi = x as int;
    let e = inv_alpha();
    let n = (modulus() - 1) as nat;
    let w = exp_inv_alpha_spec(x);
    lemma_exp_alpha_is_fifth_power(w);
    lemma_inv_alpha_inverts_alpha();
    // the fifth power of the root is the power with exponent 5 * e
    assert(fpow(w, 5) == pow(xi, e * 5) % m) by {
        lemma_pow_mod_noop(pow(xi, e), 5, m);
        lemma_pow_multiplies(xi, e, 5);
    }
    assert(e * 5 == 1 + n * 4);
    if x == 0 {
        lemma0_pow(e * 5);
    } else {
        assert(fpow(x, n) == 1);
        assert(pow(xi, 1 + n * 4) == xi * pow(pow(xi, n), 4)) by {
            lemma_pow_adds(xi, 1, n * 4);
            lemma_pow1(xi);
            lemma_pow_multiplies(xi, n, 4);
        }
        assert(pow(pow(xi, n), 4) % m == 1) by {
            lemma_pow_mod_noop(pow(xi, n), 4, m);
            lemma1_pow(4);
        }
        assert((xi * pow(pow(xi, n), 4)) % m == xi) by {
            lemma_mul_mod_noop_general(xi, pow(pow(xi, n), 4), m);
        }
    }
}

/// Taking the fifth root of the fifth power gives the element back.
pub proof fn lemma_fifth_root_of_fifth_power(x: nat)
    requires
        x < modulus(),
    ensures
        exp_inv_alpha_spec(exp_alpha_spec(x)) == x,
{
    lemma_field_order_is_prime();
    let m = modulus() as int;
    let xi = x as int;
    let e = inv_alpha();
    let n = (modulus() - 1) as nat;
    lemma_exp_alpha_is_fifth_power(x);
    lemma_inv_alpha_inverts_alpha();
    // the root of the fifth power is the power with exponent 5 * e
    assert(exp_inv_alpha_spec(fpow(x, 5)) == pow(xi, 5 * e) % m) by {
        lemma_pow_mod_noop(pow(xi, 5), e, m);
        lemma_pow_multiplies(xi, 5, e);
    }
    assert(5 * e == 1 + n * 4);
    if x == 0 {
        lemma0_pow(5 * e);
    } else {
        assert(fpow(x, n) == 1);
        assert(pow(xi, 1 + n * 4) == xi * pow(pow(xi, n), 4)) by {
            lemma_pow_adds(xi, 1, n * 4);
            lemma_pow1(xi);
            lemma_pow_multiplies(xi, n, 4);
        }
        assert(pow(pow(xi, n), 4) % m == 1) by {
            lemma_pow_mod_noop(pow(xi, n), 4, m);
            lemma1_pow(4);
        }
        assert((xi * pow(pow(xi, n), 4)) % m == xi) by {
            lemma_mul_mod_noop_general(xi, pow(pow(xi, n), 4), m);
        }
    }
}

/// The fifth power and the fifth root undo each other on the whole field:
/// the S-box is a permutation of the field.
pub proof fn lemma_sbox_is_a_permutation()
    ensures
        forall|x: nat| x < modulus() ==> #[trigger] exp_alpha_spec(exp_inv_alpha_spec(x)) == x,
        forall|x: nat| x < modulus() ==> #[trigger] exp_inv_alpha_spec(exp_alpha_spec(x)) == x,
{
    assert forall|x: nat| x < modulus() implies #[trigger] exp_alpha_spec(exp_inv_alpha_spec(x))
        == x by {
        lemma_fifth_power_of_fifth_root(x);
    }
    assert forall|x: nat| x < modulus() implies #[trigger] exp_inv_alpha_spec(exp_alpha_spec(x))
        == x by {
        lemma_fifth_root_of_fifth_power(x);
    }
}

/// Every round constant is a residue of the field.
pub proof fn lemma_round_constants_in_field()
    ensures
        forall|i: int| 0 <= i < NUM_ROUNDS ==> #[trigger] round_c(i) < modulus(),
        forall|i: int| 0 <= i < NUM_ROUNDS ==> #[trigger] round_d(i) < modulus(),
{
    assert(limbs_value(ARK_C[0]) < modulus());
    assert(limbs_value(ARK_C[1]) < modulus());
    assert(limbs_value(ARK_C[2]) < modulus());
    assert(limbs_value(ARK_C[3]) < modulus());
    assert(limbs_value(ARK_C[4]) < modulus());
    assert(limbs_value(ARK_C[5]) < modulus());
    assert(limbs_value(ARK_C[6]) < modulus());
    assert(limbs_value(ARK_C[7]) < modulus());
    assert(limbs_value(ARK_C[8]) < modulus());
    assert(limbs_value(ARK_C[9]) < modulus());
    assert(limbs_value(ARK_C[10]) < modulus());
    assert(limbs_value(ARK_C[11]) < modulus());
    assert(limbs_value(ARK_C[12]) < modulus());
    assert(limbs_value(ARK_C[13]) < modulus());
    assert(limbs_value(ARK_C[14]) < modulus());
    assert(limbs_value(ARK_C[15]) < modulus());
    assert(limbs_value(ARK_C[16]) < modulus());
    assert(limbs_value(ARK_C[17]) < modulus());
    assert(limbs_value(ARK_C[18]) < modulus());
    assert(limbs_value(ARK_C[19]) < modulus());
    assert(limbs_value(ARK_C[20]) < modulus());
    assert(limbs_value(ARK_D[0]) < modulus());
    assert(limbs_value(ARK_D[1]) < modulus());
    assert(limbs_value(ARK_D[2]) < modulus());
    assert(limbs_value(ARK_D[3]) < modulus());
    assert(limbs_value(ARK_D[4]) < modulus());
    assert(limbs_value(ARK_D[5]) < modulus());
    assert(limbs_value(ARK_D[6]) < modulus());
    assert(limbs_value(ARK_D[7]) < modulus());
    assert(limbs_value(ARK_D[8]) < modulus());
    assert(limbs_value(ARK_D[9]) < modulus());
    assert(limbs_value(ARK_D[10]) < modulus());
    assert(limbs_value(ARK_D[11]) < modulus());
    assert(limbs_value(ARK_D[12]) < modulus());
    assert(limbs_value(ARK_D[13]) < modulus());
    assert(limbs_value(ARK_D[14]) < modulus());
    assert(limbs_value(ARK_D[15]) < modulus());
    assert(limbs_value(ARK_D[16]) < modulus());
    assert(limbs_value(ARK_D[17]) < modulus());
    assert(limbs_value(ARK_D[18]) < modulus());
    assert(limbs_value(ARK_D[19]) < modulus());
    assert(limbs_value(ARK_D[20]) < modulus());
}

/// The element that canonical limbs stand for.
fn element(limbs: &[u64; 4]) -> (r: FieldElement)
    requires
        limbs_value(*limbs) < modulus(),
    ensures
        r@ == limbs_value(*limbs),
{
    match FieldElement::from_limbs(*limbs) {
        Some(e) => e,
        None => FieldElement::zero(),
    }
}

/// The inverse of the generator.
pub fn generator_inv() -> (r: FieldElement)
    ensures
        r@ == limbs_value(GENERATOR_INV),
        fmul(GENERATOR as nat, r@) == 1,
{
    proof {
        lemma_sbox_constants();
    }
    element(&GENERATOR_INV)
}

/// The S-box constant beta, the inverse of `GENERATOR + 1`.
pub fn beta() -> (r: FieldElement)
    ensures
        r@ == beta_spec(),
{
    proof {
        lemma_sbox_constants();
    }
    element(&BETA)
}

/// The S-box constant delta, `GENERATOR` squared times beta.
pub fn delta() -> (r: FieldElement)
    ensures
        r@ == delta_spec(),
{
    proof {
        lemma_sbox_constants();
    }
    element(&DELTA)
}

/// The constants added to the first cell, one per round.
pub fn round_constants_c() -> (r: [FieldElement; NUM_ROUNDS])
    ensures
        forall|i: int| 0 <= i < NUM_ROUNDS ==> (#[trigger] r[i])@ == round_c(i),
{
    let mut out = [FieldElement::zero();NUM_ROUNDS];
    let mut i: usize = 0;
    while i < NUM_ROUNDS
        invariant
            i <= NUM_ROUNDS,
            forall|j: int| 0 <= j < i ==> (#[trigger] out[j])@ == round_c(j),
        decreases NUM_ROUNDS - i,
    {
        proof {
            lemma_round_constants_in_field();
            assert(round_c(i as int) < modulus());
        }
        out[i] = element(&ARK_C[i]);
        i += 1;
    }
    out
}

/// The constants added to the second cell, one per round.
pub fn round_constants_d() -> (r: [FieldElement; NUM_ROUNDS])
    ensures
        forall|i: int| 0 <= i < NUM_ROUNDS ==> (#[trigger] r[i])@ == round_d(i),
{
    let mut out = [FieldElement::zero();NUM_ROUNDS];
    let mut i: usize = 0;
    while i < NUM_ROUNDS
        invariant
            i <= NUM_ROUNDS,
            forall|j: int| 0 <= j < i ==> (#[trigger] out[j])@ == round_d(j),
        decreases NUM_ROUNDS - i,
    {
        proof {
            lemma_round_constants_in_field();
            assert(round_d(i as int) < modulus());
        }
        out[i] = element(&ARK_D[i]);
        i += 1;
    }
    out
}

/// The fifth power of `x`: the forward S-box.
pub fn exp_alpha(x: FieldElement) -> (r: FieldElement)
    ensures
        r@ == exp_alpha_spec(x@),
{
    let x2 = x.square();
    let x4 = x2.square();
    x4.mul(&x)
}

/// The fifth root of `x`: the inverse S-box.
pub fn exp_inv_alpha(x: FieldElement) -> (r: FieldElement)
    ensures
        r@ == exp_inv_alpha_spec(x@),
{
    x.pow(&INV_ALPHA)
}

} // verus!
