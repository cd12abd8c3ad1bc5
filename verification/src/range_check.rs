//! Range checks: the constraints that keep a value below a power of two.
//!
//! All arithmetic of a circuit is arithmetic of the field, where taking more
//! than there is wraps round to a number near the order. A range check tells
//! such a number from the small one that an honest subtraction leaves.

use crate::field::{bit_at, fmul, fsub, modulus, FieldElement};
use crate::r1cs::{
    lemma_bool_valid_in_extension, lemma_grows_transitive, lemma_valid_in_extension, Boolean,
    ConstraintSystem, FpVar,
};
use vstd::arithmetic::div_mod::{
    lemma_add_mod_noop, lemma_mod_bound, lemma_mod_breakdown, lemma_mod_decreases,
    lemma_mod_multiples_vanish, lemma_mul_mod_noop, lemma_small_mod,
};
use vstd::arithmetic::power2::{lemma2_to64, lemma_pow2_pos, lemma_pow2_unfold, pow2};
use vstd::prelude::*;

verus! {

broadcast use {lemma_valid_in_extension, lemma_bool_valid_in_extension, lemma_grows_transitive};

/// The number of bits that quantities and volumes are held to.
pub const RANGE_BITS: usize = 32;

/// The number that the lowest `n` bits of `v` stand for.
pub open spec fn low_bits_value(v: nat, n: nat) -> nat
    decreases n,
{
    if n == 0 {
        0
    } else {
        low_bits_value(v, (n - 1) as nat) + bit_at(v, (n - 1) as nat) * pow2((n - 1) as nat)
    }
}

/// The lowest `n` bits of a number stand for its remainder by two to the
/// `n`.
pub proof fn lemma_low_bits(v: nat, n: nat)
    ensures
        low_bits_value(v, n) == v % pow2(n),
    decreases n,
{
    if n == 0 {
        lemma2_to64();
    } else {
        let m = (n - 1) as nat;
        lemma_low_bits(v, m);
        lemma_pow2_pos(m);
        lemma_pow2_unfold(n);
        lemma_mod_breakdown(v as int, pow2(m) as int, 2);
        assert(pow2(m) * 2 == pow2(n));
        assert(bit_at(v, m) * pow2(m) == pow2(m) * ((v / pow2(m)) % 2)) by (nonlinear_arith)
            requires
                bit_at(v, m) == (v / pow2(m)) % 2,
        ;
    }
}

/// A residue equals the residue of its lowest `n` bits just where it lies
/// below two to the `n`.
pub proof fn lemma_range_by_bits(v: nat, n: nat)
    requires
        v < modulus(),
    ensures
        (low_bits_value(v, n) % modulus() == v) <==> v < pow2(n),
{
    lemma_low_bits(v, n);
    lemma_pow2_pos(n);
    let low = v % pow2(n);
    if v < pow2(n) {
        lemma_small_mod(v, pow2(n));
        lemma_small_mod(v, modulus());
    } else {
        lemma_mod_bound(v as int, pow2(n) as int);
        lemma_mod_decreases(low, modulus());
    }
}

/// What a difference in the field says of two numbers of 64 bits: it lies
/// below two to the 32 just where the first is no less than the second and
/// exceeds it by less than two to the 32.
pub proof fn lemma_small_difference(a: nat, b: nat)
    requires
        a <= u64::MAX,
        b <= u64::MAX,
    ensures
        fsub(a, b) < pow2(32) <==> (b <= a && a - b < pow2(32)),
{
    lemma2_to64();
    let m = modulus() as int;
    if a >= b {
        lemma_small_mod((a - b) as nat, modulus());
    } else {
        lemma_mod_multiples_vanish(1, a as int - b as int, m);
        lemma_small_mod((a + modulus() - b) as nat, modulus());
    }
}

/// Adds the constraints that `value` fit in `num_bits` bits: one witness
/// bound to zero or one for each of the lowest `num_bits` bits, and one
/// constraint that those bits add up to the value. The system stays
/// satisfied just where the value lies below two to the `num_bits`.
#[verifier::rlimit(50)]
pub fn enforce_range(cs: &mut ConstraintSystem, value: &FpVar, num_bits: usize)
    requires
        old(cs).wf(),
        value.valid_in(old(cs)),
    ensures
        final(cs).wf(),
        final(cs).grows_from(old(cs)),
        final(cs).spec_satisfied() == (old(cs).spec_satisfied() && value@ < pow2(num_bits as nat)),
{
    let v = value.value();
    let mut sum = FpVar::zero();
    let mut coeff = FieldElement::one();
    let mut i: usize = 0;
    proof {
        use_type_invariant(&v);
        lemma2_to64();
        lemma_small_mod(1, modulus());
        lemma_small_mod(0, modulus());
    }
    while i < num_bits
        invariant
            i <= num_bits,
            cs.wf(),
            cs.grows_from(old(cs)),
            cs.spec_satisfied() == old(cs).spec_satisfied(),
            value.valid_in(old(cs)),
            v@ == value@,
            v@ < modulus(),
            sum.valid_in(cs),
            sum@ == low_bits_value(v@, i as nat) % modulus(),
            coeff@ == pow2(i as nat) % modulus(),
        decreases num_bits - i,
    {
        let bit = Boolean::new_witness(cs, v.bit(i));
        let term = bit.to_fp().scale(&coeff);
        assert(term.valid_in(cs));
        let ghost before = sum@;
        sum = sum.add(&term);
        proof {
            let m = modulus() as int;
            let s = low_bits_value(v@, i as nat);
            let p = pow2(i as nat);
            let b = bit_at(v@, i as nat);
            assert(b == 0 || b == 1);
            assert(term@ == fmul(p % modulus(), b));
            assert(fmul(p % modulus(), b) == (p * b) % modulus()) by {
                lemma_mul_mod_noop(p as int, b as int, m);
                lemma_small_mod(b, modulus());
            }
            assert(sum@ == (s + p * b) % modulus()) by {
                lemma_add_mod_noop(s as int, (p * b) as int, m);
            }
            assert(p * b == b * p) by (nonlinear_arith);
        }
        let ghost old_coeff = coeff@;
        coeff = coeff.double();
        proof {
            let m = modulus() as int;
            let p = pow2(i as nat);
            lemma_pow2_unfold((i + 1) as nat);
            lemma_add_mod_noop(p as int, p as int, m);
        }
        i += 1;
    }
    sum.enforce_equal(value, cs);
    proof {
        lemma_range_by_bits(v@, num_bits as nat);
    }
}

/// Whether a number fits in `RANGE_BITS` bits: the test that a prover makes
/// before it writes the constraints that ask for it.
pub fn fits_range(value: u64) -> (b: bool)
    ensures
        b == ((value as nat) < pow2(RANGE_BITS as nat)),
{
    proof {
        vstd::arithmetic::power2::lemma2_to64();
        assert((value >> 32 == 0) == (value < 0x1_0000_0000u64)) by (bit_vector);
    }
    value >> (RANGE_BITS as u64) == 0
}

/// Adds the constraints that `value` fit in `RANGE_BITS` bits.
pub fn enforce_u32_range(cs: &mut ConstraintSystem, value: &FpVar)
    requires
        old(cs).wf(),
        value.valid_in(old(cs)),
    ensures
        final(cs).wf(),
        final(cs).grows_from(old(cs)),
        final(cs).spec_satisfied() == (old(cs).spec_satisfied() && value@ < pow2(
            RANGE_BITS as nat,
        )),
{
    enforce_range(cs, value, RANGE_BITS)
}

/// Adds the constraints that `value` fit in `RANGE_BITS` bits: a number held
/// in 64 bits is kept to the same range as any other.
#[inline]
pub fn enforce_u64_range(cs: &mut ConstraintSystem, value: &FpVar)
    requires
        old(cs).wf(),
        value.valid_in(old(cs)),
    ensures
        final(cs).wf(),
        final(cs).grows_from(old(cs)),
        final(cs).spec_satisfied() == (old(cs).spec_satisfied() && value@ < pow2(
            RANGE_BITS as nat,
        )),
{
    enforce_u32_range(cs, value)
}

/// Adds the constraints that `a` be no less than `b`: that their difference
/// in the field fit in `RANGE_BITS` bits.
pub fn enforce_geq(cs: &mut ConstraintSystem, a: &FpVar, b: &FpVar)
    requires
        old(cs).wf(),
        a.valid_in(old(cs)),
        b.valid_in(old(cs)),
    ensures
        final(cs).wf(),
        final(cs).grows_from(old(cs)),
        final(cs).spec_satisfied() == (old(cs).spec_satisfied() && fsub(a@, b@) < pow2(
            RANGE_BITS as nat,
        )),
{
    let diff = a.sub(b);
    assert(diff.valid_in(cs));
    enforce_u32_range(cs, &diff)
}

} // verus!
