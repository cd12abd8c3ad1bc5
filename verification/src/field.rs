//! Elements of the BN254 scalar field.
//!
//! A [`FieldElement`] holds the canonical little-endian limbs of a residue
//! modulo the field order. Its view is that residue as a natural number, and
//! every contract in this crate is stated over such numbers. The arithmetic
//! itself is done by `ark-ff`; the functions at the end of this module that
//! call it are its only unproved items.

use ark_ff::{BigInt, Field, PrimeField};
use ark_serialize::CanonicalSerialize;
use vstd::arithmetic::div_mod::{
    lemma_add_mod_noop, lemma_add_mod_noop_right, lemma_basic_div, lemma_div_denominator,
    lemma_fundamental_div_mod, lemma_fundamental_div_mod_converse, lemma_mod_multiples_vanish,
    lemma_mul_mod_noop_left, lemma_mul_mod_noop_right, lemma_small_mod,
};
use vstd::arithmetic::power::pow;
use vstd::arithmetic::power2::{
    lemma2_to64, lemma_pow2_adds, lemma_pow2_pos, lemma_pow2_strictly_increases, lemma_pow2_unfold,
    pow2,
};
use vstd::bits::lemma_u64_shr_is_div;
use vstd::prelude::*;

verus! {

/// The order of the BN254 scalar field.
pub open spec fn modulus() -> nat {
    21888242871839275222246405745257275088548364400416034343698204186575808495617nat
}

/// The number that four little-endian 64-bit limbs stand for.
pub open spec fn limbs_value(l: [u64; 4]) -> nat {
    (l[0] as nat) + (l[1] as nat) * 0x1_0000_0000_0000_0000nat + (l[2] as nat)
        * 0x1_0000_0000_0000_0000_0000_0000_0000_0000nat + (l[3] as nat)
        * 0x1_0000_0000_0000_0000_0000_0000_0000_0000_0000_0000_0000_0000nat
}

/// Addition in the field.
pub open spec fn fadd(a: nat, b: nat) -> nat {
    (a + b) % modulus()
}

/// Subtraction in the field.
pub open spec fn fsub(a: nat, b: nat) -> nat {
    ((a as int - b as int) % (modulus() as int)) as nat
}

/// Multiplication in the field.
pub open spec fn fmul(a: nat, b: nat) -> nat {
    (a * b) % modulus()
}

/// Exponentiation in the field.
pub open spec fn fpow(a: nat, e: nat) -> nat {
    (pow(a as int, e) % (modulus() as int)) as nat
}

/// The number that bytes stand for, least significant first.
pub open spec fn le_bytes_value(bytes: Seq<u8>) -> nat
    decreases bytes.len(),
{
    if bytes.len() == 0 {
        0
    } else {
        bytes[0] as nat + 256 * le_bytes_value(bytes.skip(1))
    }
}

/// The 32 bytes of a number, least significant first.
pub open spec fn le_bytes32_spec(v: nat) -> Seq<u8> {
    Seq::new(32, |i: int| ((v / (pow(256, i as nat) as nat)) % 256) as u8)
}

/// The views of a sequence of field elements.
pub open spec fn values(s: Seq<FieldElement>) -> Seq<nat> {
    s.map_values(|e: FieldElement| e@)
}

/// Addition in the field is associative.
pub proof fn lemma_fadd_assoc(a: nat, b: nat, c: nat)
    ensures
        fadd(fadd(a, b), c) == fadd(a, fadd(b, c)),
{
    let m = modulus() as int;
    lemma_add_mod_noop((a + b) as int, c as int, m);
    lemma_add_mod_noop_right(((a + b) as int) % m, c as int, m);
    lemma_add_mod_noop_right(a as int, (b + c) as int, m);
}

/// A residue plus zero is the residue.
pub proof fn lemma_fadd_zero(a: nat)
    requires
        a < modulus(),
    ensures
        fadd(a, 0) == a,
        fadd(0, a) == a,
{
    lemma_small_mod(a, modulus());
}

/// One times a residue is the residue, and zero times anything is zero.
pub proof fn lemma_fmul_unit(a: nat)
    requires
        a < modulus(),
    ensures
        fmul(1, a) == a,
        fmul(a, 1) == a,
        fmul(0, a) == 0,
        fmul(a, 0) == 0,
{
    lemma_small_mod(a, modulus());
    lemma_small_mod(0, modulus());
    assert(1 * a == a && a * 1 == a && 0 * a == 0 && a * 0 == 0);
}

/// Multiplication in the field is associative.
pub proof fn lemma_fmul_assoc(a: nat, b: nat, c: nat)
    ensures
        fmul(fmul(a, b), c) == fmul(a, fmul(b, c)),
{
    let m = modulus() as int;
    lemma_mul_mod_noop_left((a * b) as int, c as int, m);
    lemma_mul_mod_noop_right(a as int, (b * c) as int, m);
    assert((a * b) * c == a * (b * c)) by (nonlinear_arith);
}

/// Multiplication in the field distributes over addition.
pub proof fn lemma_fmul_distributes(k: nat, a: nat, b: nat)
    ensures
        fmul(k, fadd(a, b)) == fadd(fmul(k, a), fmul(k, b)),
{
    let m = modulus() as int;
    lemma_mul_mod_noop_right(k as int, (a + b) as int, m);
    lemma_add_mod_noop((k * a) as int, (k * b) as int, m);
    assert(k * (a + b) == k * a + k * b) by (nonlinear_arith);
}

/// Subtracting is adding the product with the order less one.
pub proof fn lemma_fsub_as_fadd(a: nat, b: nat)
    ensures
        fsub(a, b) == fadd(a, fmul((modulus() - 1) as nat, b)),
{
    let m = modulus() as int;
    let k = (modulus() - 1) as nat;
    lemma_add_mod_noop_right(a as int, (k * b) as int, m);
    assert(a + k * b == m * b + (a - b)) by (nonlinear_arith)
        requires
            k == m - 1,
    ;
    lemma_mod_multiples_vanish(b as int, a as int - b as int, m);
}

/// Adding back what was subtracted gives the residue that one began with.
pub proof fn lemma_fsub_then_fadd(a: nat, b: nat)
    requires
        a < modulus(),
    ensures
        fadd(b, fsub(a, b)) == a,
{
    let m = modulus() as int;
    lemma_add_mod_noop_right(b as int, a as int - b as int, m);
    lemma_small_mod(a, modulus());
}

/// The difference of two residues is zero just where they are equal.
pub proof fn lemma_fsub_zero(a: nat, b: nat)
    requires
        a < modulus(),
        b < modulus(),
    ensures
        fsub(a, b) == 0 <==> a == b,
        fsub(a, b) < modulus(),
{
    let m = modulus() as int;
    if a >= b {
        lemma_small_mod((a - b) as nat, modulus());
    } else {
        lemma_mod_multiples_vanish(1, a as int - b as int, m);
        lemma_small_mod((a + modulus() - b) as nat, modulus());
    }
}

/// Bit `i` of a number, counted from the least significant.
pub open spec fn bit_at(v: nat, i: nat) -> nat {
    (v / pow2(i)) % 2
}

/// The bit at distance `r` into a limb is the bit at the same distance past
/// `s` in a number whose limb begins at bit `s`.
#[verifier::rlimit(50)]
proof fn lemma_bit_of_limb(low: nat, limb: nat, high: nat, s: nat, r: nat)
    requires
        low < pow2(s),
        limb < pow2(64),
        r < 64,
    ensures
        bit_at(low + pow2(s) * (limb + pow2(64) * high), s + r) == bit_at(limb, r),
{
    let m = limb + pow2(64) * high;
    let v = low + pow2(s) * m;
    lemma_pow2_pos(s);
    lemma_pow2_pos(r);
    lemma_pow2_pos((64 - r) as nat);
    assert(v == m * pow2(s) + low) by (nonlinear_arith)
        requires
            v == low + pow2(s) * m,
    ;
    lemma_fundamental_div_mod_converse(v as int, pow2(s) as int, m as int, low as int);
    lemma_pow2_adds(s, r);
    lemma_div_denominator(v as int, pow2(s) as int, pow2(r) as int);
    assert(v / pow2(s + r) == m / pow2(r));
    let q = limb / pow2(r) + pow2((64 - r) as nat) * high;
    lemma_pow2_adds(r, (64 - r) as nat);
    lemma_fundamental_div_mod(limb as int, pow2(r) as int);
    let lq = limb / pow2(r);
    let lr = limb % pow2(r);
    let pr = pow2(r);
    let ph = pow2((64 - r) as nat);
    assert(m == q * pr + lr) by (nonlinear_arith)
        requires
            m == limb + (pr * ph) * high,
            limb == pr * lq + lr,
            q == lq + ph * high,
    ;
    lemma_fundamental_div_mod_converse(m as int, pr as int, q as int, lr as int);
    lemma_pow2_unfold((64 - r) as nat);
    let half = pow2((63 - r) as nat);
    assert(q == lq + 2 * (half * high)) by (nonlinear_arith)
        requires
            q == lq + ph * high,
            ph == 2 * half,
    ;
    assert((lq + 2 * (half * high)) % 2 == lq % 2) by {
        lemma_mod_multiples_vanish((half * high) as int, lq as int, 2);
    }
}

/// The bits of a number of four limbs are the bits of its limbs.
#[verifier::rlimit(50)]
proof fn lemma_bit_of_limbs(l: [u64; 4], j: nat, r: nat)
    requires
        j < 4,
        r < 64,
    ensures
        bit_at(limbs_value(l), 64 * j + r) == bit_at(l[j as int] as nat, r),
{
    lemma2_to64();
    lemma_pow2_adds(64, 64);
    lemma_pow2_adds(128, 64);
    let b64 = pow2(64);
    assert(b64 == 0x1_0000_0000_0000_0000);
    assert(pow2(128) == 0x1_0000_0000_0000_0000_0000_0000_0000_0000nat);
    assert(pow2(192) == 0x1_0000_0000_0000_0000_0000_0000_0000_0000_0000_0000_0000_0000nat);
    let l0 = l[0] as nat;
    let l1 = l[1] as nat;
    let l2 = l[2] as nat;
    let l3 = l[3] as nat;
    if j == 0 {
        lemma_bit_of_limb(0, l0, l1 + b64 * l2 + pow2(128) * l3, 0, r);
        assert(limbs_value(l) == 0 + pow2(0) * (l0 + b64 * (l1 + b64 * l2 + pow2(128) * l3)))
            by (nonlinear_arith)
            requires
                limbs_value(l) == l0 + l1 * b64 + l2 * pow2(128) + l3 * pow2(192),
                pow2(0) == 1,
                pow2(128) == b64 * b64,
                pow2(192) == pow2(128) * b64,
        ;
    } else if j == 1 {
        lemma_bit_of_limb(l0, l1, l2 + b64 * l3, 64, r);
        assert(limbs_value(l) == l0 + pow2(64) * (l1 + b64 * (l2 + b64 * l3))) by (nonlinear_arith)
            requires
                limbs_value(l) == l0 + l1 * b64 + l2 * pow2(128) + l3 * pow2(192),
                pow2(64) == b64,
                pow2(128) == b64 * b64,
                pow2(192) == pow2(128) * b64,
        ;
    } else if j == 2 {
        lemma_bit_of_limb(l0 + b64 * l1, l2, l3, 128, r);
        assert(limbs_value(l) == (l0 + b64 * l1) + pow2(128) * (l2 + b64 * l3)) by (nonlinear_arith)
            requires
                limbs_value(l) == l0 + l1 * b64 + l2 * pow2(128) + l3 * pow2(192),
                pow2(192) == pow2(128) * b64,
        ;
    } else {
        lemma_bit_of_limb(l0 + b64 * l1 + pow2(128) * l2, l3, 0, 192, r);
        assert(limbs_value(l) == (l0 + b64 * l1 + pow2(128) * l2) + pow2(192) * (l3 + b64 * 0))
            by (nonlinear_arith)
            requires
                limbs_value(l) == l0 + l1 * b64 + l2 * pow2(128) + l3 * pow2(192),
        ;
    }
}

/// A number below two to the 256 has no bit at position 256 or beyond.
proof fn lemma_no_high_bits(v: nat, i: nat)
    requires
        v < modulus(),
        i >= 256,
    ensures
        bit_at(v, i) == 0,
{
    lemma2_to64();
    lemma_pow2_adds(64, 64);
    lemma_pow2_adds(128, 128);
    assert(pow2(128) == 0x1_0000_0000_0000_0000_0000_0000_0000_0000nat);
    assert(pow2(256) == pow2(128) * pow2(128));
    let half = pow2(128);
    assert(half * half
        == 0x1_0000_0000_0000_0000_0000_0000_0000_0000_0000_0000_0000_0000_0000_0000_0000_0000nat)
        by (nonlinear_arith)
        requires
            half == 0x1_0000_0000_0000_0000_0000_0000_0000_0000nat,
    ;
    assert(pow2(256) > modulus());
    if i > 256 {
        lemma_pow2_strictly_increases(256, i);
    }
    lemma_basic_div(v as int, pow2(i) as int);
}

/// The limbs of the field order, least significant first.
pub const MODULUS_LIMBS: [u64; 4] = [
    0x43e1f593f0000001,
    0x2833e84879b97091,
    0xb85045b68181585d,
    0x30644e72e131a029,
];

/// A residue modulo the field order, held as four canonical limbs.
#[derive(Clone, Copy, Debug, PartialEq, Eq, Hash)]
pub struct FieldElement {
    limbs: [u64; 4],
}

impl View for FieldElement {
    type V = nat;

    closed spec fn view(&self) -> nat {
        limbs_value(self.limbs)
    }
}

/// Whether four limbs, read as a number, lie below the field order.
fn limbs_below_modulus(l: &[u64; 4]) -> (b: bool)
    ensures
        b == (limbs_value(*l) < modulus()),
{
    if l[3] != 0x30644e72e131a029 {
        l[3] < 0x30644e72e131a029
    } else if l[2] != 0xb85045b68181585d {
        l[2] < 0xb85045b68181585d
    } else if l[1] != 0x2833e84879b97091 {
        l[1] < 0x2833e84879b97091
    } else {
        l[0] < 0x43e1f593f0000001
    }
}

impl FieldElement {
    /// Every element is a residue: its view lies below the field order.
    #[verifier::type_invariant]
    pub open spec fn canonical(self) -> bool {
        self@ < modulus()
    }

    /// The limbs behind the view.
    pub closed spec fn spec_limbs(self) -> [u64; 4] {
        self.limbs
    }

    /// The view is the number that the limbs stand for.
    pub proof fn lemma_view_is_limbs_value(self)
        ensures
            self@ == limbs_value(self.spec_limbs()),
    {
    }

    /// The additive identity.
    pub fn zero() -> (r: Self)
        ensures
            r@ == 0,
    {
        FieldElement { limbs: [0, 0, 0, 0] }
    }

    /// The multiplicative identity.
    pub fn one() -> (r: Self)
        ensures
            r@ == 1,
    {
        FieldElement { limbs: [1, 0, 0, 0] }
    }

    /// The element that a 64-bit integer stands for.
    pub fn from_u64(x: u64) -> (r: Self)
        ensures
            r@ == x,
    {
        FieldElement { limbs: [x, 0, 0, 0] }
    }

    /// The element that a boolean stands for: one for `true`, zero for `false`.
    pub fn from_bool(b: bool) -> (r: Self)
        ensures
            r@ == if b { 1nat } else { 0nat },
    {
        if b {
            FieldElement::one()
        } else {
            FieldElement::zero()
        }
    }

    /// The element with the given canonical limbs, if they lie below the
    /// field order.
    pub fn from_limbs(limbs: [u64; 4]) -> (r: Option<Self>)
        ensures
            r is Some <==> limbs_value(limbs) < modulus(),
            r is Some ==> r->0@ == limbs_value(limbs) && r->0.spec_limbs() == limbs,
    {
        if limbs_below_modulus(&limbs) {
            Some(FieldElement { limbs })
        } else {
            None
        }
    }

    /// The canonical limbs, least significant first.
    pub fn to_limbs(&self) -> (l: [u64; 4])
        ensures
            l == self.spec_limbs(),
            limbs_value(l) == self@,
    {
        self.limbs
    }

    /// Whether two elements are the same residue.
    pub fn equals(&self, other: &Self) -> (b: bool)
        ensures
            b == (self@ == other@),
    {
        self.limbs[0] == other.limbs[0] && self.limbs[1] == other.limbs[1] && self.limbs[2]
            == other.limbs[2] && self.limbs[3] == other.limbs[3]
    }

    /// Whether the element is the additive identity.
    pub fn is_zero(&self) -> (b: bool)
        ensures
            b == (self@ == 0),
    {
        self.limbs[0] == 0 && self.limbs[1] == 0 && self.limbs[2] == 0 && self.limbs[3] == 0
    }

    /// Whether bit `i` of the residue, counted from the least significant,
    /// is set.
    pub fn bit(&self, i: usize) -> (b: bool)
        ensures
            b == (bit_at(self@, i as nat) == 1),
    {
        if i >= 256 {
            proof {
                use_type_invariant(self);
                lemma_no_high_bits(self@, i as nat);
            }
            return false;
        }
        let j = i / 64;
        let r = (i % 64) as u64;
        let limb = self.limbs[j];
        proof {
            lemma_bit_of_limbs(self.limbs, j as nat, r as nat);
            lemma_u64_shr_is_div(limb, r);
            let shifted = limb >> r;
            assert((shifted & 1) == shifted % 2) by (bit_vector);
        }
        ((limb >> r) & 1) == 1
    }

    /// The sum of two elements.
    pub fn add(&self, other: &Self) -> (r: Self)
        ensures
            r@ == fadd(self@, other@),
    {
        ark_add(self, other)
    }

    /// The difference of two elements.
    pub fn sub(&self, other: &Self) -> (r: Self)
        ensures
            r@ == fsub(self@, other@),
    {
        ark_sub(self, other)
    }

    /// The product of two elements.
    pub fn mul(&self, other: &Self) -> (r: Self)
        ensures
            r@ == fmul(self@, other@),
    {
        ark_mul(self, other)
    }

    /// The element times itself.
    pub fn square(&self) -> (r: Self)
        ensures
            r@ == fmul(self@, self@),
    {
        ark_mul(self, self)
    }

    /// The element added to itself.
    pub fn double(&self) -> (r: Self)
        ensures
            r@ == fadd(self@, self@),
    {
        ark_add(self, self)
    }

    /// The additive inverse.
    pub fn neg(&self) -> (r: Self)
        ensures
            r@ == fsub(0, self@),
    {
        let zero = FieldElement::zero();
        ark_sub(&zero, self)
    }

    /// The element raised to the power that `exp` stands for, limbs least
    /// significant first.
    pub fn pow(&self, exp: &[u64; 4]) -> (r: Self)
        ensures
            r@ == fpow(self@, limbs_value(*exp)),
    {
        ark_pow(self, exp)
    }

    /// The element that bytes stand for, least significant first, taken
    /// modulo the field order.
    pub fn from_le_bytes_mod_order(bytes: &[u8]) -> (r: Self)
        ensures
            r@ == le_bytes_value(bytes@) % modulus(),
    {
        ark_from_le_bytes_mod_order(bytes)
    }

    /// The 32 bytes of the residue, least significant first.
    pub fn to_bytes_le(&self) -> (r: Vec<u8>)
        ensures
            r@ == le_bytes32_spec(self@),
    {
        ark_serialize_compressed(self)
    }

    /// The multiplicative inverse, which every element but zero has.
    pub fn inverse(&self) -> (r: Option<Self>)
        ensures
            r is None <==> self@ == 0,
            r is Some ==> fmul(self@, r->0@) == 1,
    {
        ark_inverse(self)
    }
}

/// `Fr::add` of `ark-ff`: the sum of the two residues, reduced modulo the
/// field order.
#[verifier::external_body]
fn ark_add(a: &FieldElement, b: &FieldElement) -> (r: FieldElement)
    ensures
        r@ == fadd(a@, b@),
{
    let x = ark_bn254::Fr::from_bigint(BigInt::new(a.limbs)).unwrap();
    let y = ark_bn254::Fr::from_bigint(BigInt::new(b.limbs)).unwrap();
    FieldElement { limbs: (x + y).into_bigint().0 }
}

/// `Fr::sub` of `ark-ff`: the difference of the two residues, reduced modulo
/// the field order to a number that is not negative.
#[verifier::external_body]
fn ark_sub(a: &FieldElement, b: &FieldElement) -> (r: FieldElement)
    ensures
        r@ == fsub(a@, b@),
{
    let x = ark_bn254::Fr::from_bigint(BigInt::new(a.limbs)).unwrap();
    let y = ark_bn254::Fr::from_bigint(BigInt::new(b.limbs)).unwrap();
    FieldElement { limbs: (x - y).into_bigint().0 }
}

/// `Fr::mul` of `ark-ff`: the product of the two residues, reduced modulo the
/// field order.
#[verifier::external_body]
fn ark_mul(a: &FieldElement, b: &FieldElement) -> (r: FieldElement)
    ensures
        r@ == fmul(a@, b@),
{
    let x = ark_bn254::Fr::from_bigint(BigInt::new(a.limbs)).unwrap();
    let y = ark_bn254::Fr::from_bigint(BigInt::new(b.limbs)).unwrap();
    FieldElement { limbs: (x * y).into_bigint().0 }
}

/// `Field::pow` of `ark-ff`: the residue raised to the exponent whose limbs
/// are given least significant first, reduced modulo the field order.
#[verifier::external_body]
fn ark_pow(a: &FieldElement, exp: &[u64; 4]) -> (r: FieldElement)
    ensures
        r@ == fpow(a@, limbs_value(*exp)),
{
    let x = ark_bn254::Fr::from_bigint(BigInt::new(a.limbs)).unwrap();
    FieldElement { limbs: x.pow(exp).into_bigint().0 }
}

/// `Field::inverse` of `ark-ff`: nothing for zero, and for any other residue
/// one whose product with it is one.
#[verifier::external_body]
fn ark_inverse(a: &FieldElement) -> (r: Option<FieldElement>)
    ensures
        r is None <==> a@ == 0,
        r is Some ==> fmul(a@, r->0@) == 1,
{
    let x = ark_bn254::Fr::from_bigint(BigInt::new(a.limbs)).unwrap();
    x.inverse().map(|i| FieldElement { limbs: i.into_bigint().0 })
}

/// `PrimeField::from_le_bytes_mod_order` of `ark-ff`: the number that the
/// bytes stand for, least significant first, reduced modulo the field order.
#[verifier::external_body]
fn ark_from_le_bytes_mod_order(bytes: &[u8]) -> (r: FieldElement)
    ensures
        r@ == le_bytes_value(bytes@) % modulus(),
{
    FieldElement { limbs: ark_bn254::Fr::from_le_bytes_mod_order(bytes).into_bigint().0 }
}

/// `CanonicalSerialize::serialize_compressed` of `ark-serialize` on a field
/// element: the 32 bytes of its residue, least significant first.
#[verifier::external_body]
fn ark_serialize_compressed(a: &FieldElement) -> (r: Vec<u8>)
    ensures
        r@ == le_bytes32_spec(a@),
{
    let mut bytes = Vec::new();
    let x = ark_bn254::Fr::from_bigint(BigInt::new(a.limbs)).unwrap();
    x.serialize_compressed(&mut bytes).unwrap();
    bytes
}

} // verus!
