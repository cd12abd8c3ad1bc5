//! The order of the scalar field is prime.
//!
//! The proof goes by the criterion of Lucas. For the order, and in turn for
//! each prime factor of the number before it, a base is given whose power
//! with that number as exponent is one modulo the prime, while its power
//! without any one of the prime factors is not. The powers are computed one
//! bit of the exponent at a time: each squaring and each product is written
//! down with its quotient and its remainder, so that what is left to check
//! is one product of numbers for each step.

use crate::field::{fpow, modulus};
use crate::number_theory::{
    is_prime, lemma_certificate, lemma_certified_empty, lemma_certified_push, lemma_fermat,
    lemma_lucas, lemma_power_is, lemma_power_of_power, lemma_power_one, lemma_power_square,
    lemma_power_times, lucas_certificate, power_is, product,
};
use vstd::prelude::*;

verus! {

/// 2 is prime.
pub proof fn lemma_prime_2()
    ensures
        is_prime(2),
{
}

/// 3 is prime.
pub proof fn lemma_prime_3()
    ensures
        is_prime(3),
{
    assert forall|d: int| 1 < d < 3 implies #[trigger] (3int % d) != 0 by {
        assert(d == 2);
    }
}

/// 5 is prime.
pub proof fn lemma_prime_5()
    ensures
        is_prime(5),
{
    assert forall|d: int| 1 < d < 5 implies #[trigger] (5int % d) != 0 by {
        assert(d == 2 || d == 3 || d == 4);
    }
}

/// 7 is prime.
pub proof fn lemma_prime_7()
    ensures
        is_prime(7),
{
    assert forall|d: int| 1 < d < 7 implies #[trigger] (7int % d) != 0 by {
        assert(d == 2 || d == 3 || d == 4 || d == 5 || d == 6);
    }
}

/// 11 is prime.
pub proof fn lemma_prime_11()
    ensures
        is_prime(11),
{
    assert forall|d: int| 1 < d < 11 implies #[trigger] (11int % d) != 0 by {
        assert(d == 2
            || d == 3 || d == 4 || d == 5 || d == 6 || d == 7 || d == 8 || d == 9 || d == 10);
    }
}

/// 13 is prime.
pub proof fn lemma_prime_13()
    ensures
        is_prime(13),
{
    assert forall|d: int| 1 < d < 13 implies #[trigger] (13int % d) != 0 by {
        assert(d == 2
            || d == 3 || d == 4 || d == 5 || d == 6 || d == 7 || d == 8 || d == 9 || d == 10
            || d == 11 || d == 12);
    }
}

/// 17 is prime.
pub proof fn lemma_prime_17()
    ensures
        is_prime(17),
{
    assert forall|d: int| 1 < d < 17 implies #[trigger] (17int % d) != 0 by {
        assert(d == 2
            || d == 3 || d == 4 || d == 5 || d == 6 || d == 7 || d == 8 || d == 9 || d == 10
            || d == 11 || d == 12 || d == 13 || d == 14 || d == 15 || d == 16);
    }
}

/// 19 is prime.
pub proof fn lemma_prime_19()
    ensures
        is_prime(19),
{
    assert forall|d: int| 1 < d < 19 implies #[trigger] (19int % d) != 0 by {
        assert(d == 2
            || d == 3 || d == 4 || d == 5 || d == 6 || d == 7 || d == 8 || d == 9 || d == 10
            || d == 11 || d == 12 || d == 13 || d == 14 || d == 15 || d == 16 || d == 17
            || d == 18);
    }
}

/// 23 is prime.
pub proof fn lemma_prime_23()
    ensures
        is_prime(23),
{
    assert forall|d: int| 1 < d < 23 implies #[trigger] (23int % d) != 0 by {
        assert(d == 2
            || d == 3 || d == 4 || d == 5 || d == 6 || d == 7 || d == 8 || d == 9 || d == 10
            || d == 11 || d == 12 || d == 13 || d == 14 || d == 15 || d == 16 || d == 17
            || d == 18 || d == 19 || d == 20 || d == 21 || d == 22);
    }
}

/// 29 is prime.
pub proof fn lemma_prime_29()
    ensures
        is_prime(29),
{
    assert forall|d: int| 1 < d < 29 implies #[trigger] (29int % d) != 0 by {
        assert(d == 2
            || d == 3 || d == 4 || d == 5 || d == 6 || d == 7 || d == 8 || d == 9 || d == 10
            || d == 11 || d == 12 || d == 13 || d == 14 || d == 15 || d == 16 || d == 17
            || d == 18 || d == 19 || d == 20 || d == 21 || d == 22 || d == 23 || d == 24
            || d == 25 || d == 26 || d == 27 || d == 28);
    }
}

/// 31 is prime.
pub proof fn lemma_prime_31()
    ensures
        is_prime(31),
{
    assert forall|d: int| 1 < d < 31 implies #[trigger] (31int % d) != 0 by {
        assert(d == 2
            || d == 3 || d == 4 || d == 5 || d == 6 || d == 7 || d == 8 || d == 9 || d == 10
            || d == 11 || d == 12 || d == 13 || d == 14 || d == 15 || d == 16 || d == 17
            || d == 18 || d == 19 || d == 20 || d == 21 || d == 22 || d == 23 || d == 24
            || d == 25 || d == 26 || d == 27 || d == 28 || d == 29 || d == 30);
    }
}

/// 37 is prime.
pub proof fn lemma_prime_37()
    ensures
        is_prime(37),
{
    assert forall|d: int| 1 < d < 37 implies #[trigger] (37int % d) != 0 by {
        assert(d == 2
            || d == 3 || d == 4 || d == 5 || d == 6 || d == 7 || d == 8 || d == 9 || d == 10
            || d == 11 || d == 12 || d == 13 || d == 14 || d == 15 || d == 16 || d == 17
            || d == 18 || d == 19 || d == 20 || d == 21 || d == 22 || d == 23 || d == 24
            || d == 25 || d == 26 || d == 27 || d == 28 || d == 29 || d == 30 || d == 31
            || d == 32 || d == 33 || d == 34 || d == 35 || d == 36);
    }
}

/// A power of a base, computed from the bits of the exponent.
proof fn lemma_power_41_root()
    ensures
        power_is(6int, 4nat, 41int, 25int),
{
    let n = 41int;
    let b = 6int;
    lemma_power_one(b, n);
    let e = 1nat;
    let a = 6int;
    let q = 0int;
    let r = 36int;
    lemma_power_square(b, n, e, a, q, r);
    let e = 2 * e;
    let a = r;
    let q = 31int;
    let r = 25int;
    lemma_power_square(b, n, e, a, q, r);
    let e = 2 * e;
    let a = r;
}

/// A power of a base, computed from the bits of the exponent.
proof fn lemma_power_41_ta()
    ensures
        power_is(25int, 2nat, 41int, 10int),
{
    let n = 41int;
    let b = 25int;
    lemma_power_one(b, n);
    let e = 1nat;
    let a = 25int;
    let q = 15int;
    let r = 10int;
    lemma_power_square(b, n, e, a, q, r);
    let e = 2 * e;
    let a = r;
}

/// A power of the base of the certificate, as the power of a power.
proof fn lemma_node_41_ta()
    ensures
        power_is(6int, 8nat, 41int, 10int),
{
    lemma_power_41_root();
    lemma_power_41_ta();
    lemma_power_of_power(6int, 4nat, 41int, 25int, 2nat, 10int);
    assert(4nat * 2nat == 8nat);
}

/// A power of a base, computed from the bits of the exponent.
proof fn lemma_power_41_tb()
    ensures
        power_is(25int, 5nat, 41int, 40int),
{
    let n = 41int;
    let b = 25int;
    lemma_power_one(b, n);
    let e = 1nat;
    let a = 25int;
    let q = 15int;
    let r = 10int;
    lemma_power_square(b, n, e, a, q, r);
    let e = 2 * e;
    let a = r;
    let q = 2int;
    let r = 18int;
    lemma_power_square(b, n, e, a, q, r);
    let e = 2 * e;
    let a = r;
    let q = 10int;
    let r = 40int;
    lemma_power_times(b, n, e, a, q, r);
    let e = e + 1;
    let a = r;
}

/// A power of the base of the certificate, as the power of a power.
proof fn lemma_node_41_tb()
    ensures
        power_is(6int, 20nat, 41int, 40int),
{
    lemma_power_41_root();
    lemma_power_41_tb();
    lemma_power_of_power(6int, 4nat, 41int, 25int, 5nat, 40int);
    assert(4nat * 5nat == 20nat);
}

/// A power of a base, computed from the bits of the exponent.
proof fn lemma_power_41_full()
    ensures
        power_is(40int, 2nat, 41int, 1int),
{
    let n = 41int;
    let b = 40int;
    lemma_power_one(b, n);
    let e = 1nat;
    let a = 40int;
    let q = 39int;
    let r = 1int;
    lemma_power_square(b, n, e, a, q, r);
    let e = 2 * e;
    let a = r;
}

/// The certificate of 41: base 6, and the prime factors of the
/// number before it.
pub proof fn lemma_certificate_41() -> (factors: Seq<int>)
    ensures
        lucas_certificate(41int, 6, factors),
{
    let n = 41int;
    lemma_prime_2();
    lemma_node_41_tb();
    lemma_power_is(6int, 20nat, n, 40int);
    lemma_prime_5();
    lemma_node_41_ta();
    lemma_power_is(6int, 8nat, n, 10int);
    lemma_power_41_full();
    lemma_power_of_power(6int, 20nat, n, 40int, 2nat, 1);
    assert(20nat * 2nat == 40nat);
    lemma_power_is(6int, 40nat, n, 1);
    lemma_certified_empty(n, 6);
    let s = Seq::<int>::empty();
    lemma_certified_push(n, 6, s, 2int, 20nat);
    let s = s.push(2int);
    assert(product(s) == 2int);
    lemma_certified_push(n, 6, s, 2int, 20nat);
    let s = s.push(2int);
    assert(product(s) == 4int);
    lemma_certified_push(n, 6, s, 2int, 20nat);
    let s = s.push(2int);
    assert(product(s) == 8int);
    lemma_certified_push(n, 6, s, 5int, 8nat);
    let s = s.push(5int);
    assert(product(s) == 40int);
    lemma_certificate(n, 6, s);
    s
}

/// 41 is prime.
pub proof fn lemma_prime_41()
    ensures
        is_prime(41int),
{
    let factors = lemma_certificate_41();
    lemma_lucas(41int, 6, factors);
}

/// A power of a base, computed from the bits of the exponent.
proof fn lemma_power_47_root()
    ensures
        power_is(5int, 1nat, 47int, 5int),
{
    let n = 47int;
    let b = 5int;
    lemma_power_one(b, n);
    let e = 1nat;
    let a = 5int;
}

/// A power of a base, computed from the bits of the exponent.
proof fn lemma_power_47_ta()
    ensures
        power_is(5int, 2nat, 47int, 25int),
{
    let n = 47int;
    let b = 5int;
    lemma_power_one(b, n);
    let e = 1nat;
    let a = 5int;
    let q = 0int;
    let r = 25int;
    lemma_power_square(b, n, e, a, q, r);
    let e = 2 * e;
    let a = r;
}

/// A power of the base of the certificate, as the power of a power.
proof fn lemma_node_47_ta()
    ensures
        power_is(5int, 2nat, 47int, 25int),
{
    lemma_power_47_root();
    lemma_power_47_ta();
    lemma_power_of_power(5int, 1nat, 47int, 5int, 2nat, 25int);
    assert(1nat * 2nat == 2nat);
}

/// A power of a base, computed from the bits of the exponent.
proof fn lemma_power_47_tb()
    ensures
        power_is(5int, 23nat, 47int, 46int),
{
    let n = 47int;
    let b = 5int;
    lemma_power_one(b, n);
    let e = 1nat;
    let a = 5int;
    let q = 0int;
    let r = 25int;
    lemma_power_square(b, n, e, a, q, r);
    let e = 2 * e;
    let a = r;
    let q = 13int;
    let r = 14int;
    lemma_power_square(b, n, e, a, q, r);
    let e = 2 * e;
    let a = r;
    let q = 1int;
    let r = 23int;
    lemma_power_times(b, n, e, a, q, r);
    let e = e + 1;
    let a = r;
    let q = 11int;
    let r = 12int;
    lemma_power_square(b, n, e, a, q, r);
    let e = 2 * e;
    let a = r;
    let q = 1int;
    let r = 13int;
    lemma_power_times(b, n, e, a, q, r);
    let e = e + 1;
    let a = r;
    let q = 3int;
    let r = 28int;
    lemma_power_square(b, n, e, a, q, r);
    let e = 2 * e;
    let a = r;
    let q = 2int;
    let r = 46int;
    lemma_power_times(b, n, e, a, q, r);
    let e = e + 1;
    let a = r;
}

/// A power of the base of the certificate, as the power of a power.
proof fn lemma_node_47_tb()
    ensures
        power_is(5int, 23nat, 47int, 46int),
{
    lemma_power_47_root();
    lemma_power_47_tb();
    lemma_power_of_power(5int, 1nat, 47int, 5int, 23nat, 46int);
    assert(1nat * 23nat == 23nat);
}

/// A power of a base, computed from the bits of the exponent.
proof fn lemma_power_47_full()
    ensures
        power_is(46int, 2nat, 47int, 1int),
{
    let n = 47int;
    let b = 46int;
    lemma_power_one(b, n);
    let e = 1nat;
    let a = 46int;
    let q = 45int;
    let r = 1int;
    lemma_power_square(b, n, e, a, q, r);
    let e = 2 * e;
    let a = r;
}

/// The certificate of 47: base 5, and the prime factors of the
/// number before it.
pub proof fn lemma_certificate_47() -> (factors: Seq<int>)
    ensures
        lucas_certificate(47int, 5, factors),
{
    let n = 47int;
    lemma_prime_2();
    lemma_node_47_tb();
    lemma_power_is(5int, 23nat, n, 46int);
    lemma_prime_23();
    lemma_node_47_ta();
    lemma_power_is(5int, 2nat, n, 25int);
    lemma_power_47_full();
    lemma_power_of_power(5int, 23nat, n, 46int, 2nat, 1);
    assert(23nat * 2nat == 46nat);
    lemma_power_is(5int, 46nat, n, 1);
    lemma_certified_empty(n, 5);
    let s = Seq::<int>::empty();
    lemma_certified_push(n, 5, s, 2int, 23nat);
    let s = s.push(2int);
    assert(product(s) == 2int);
    lemma_certified_push(n, 5, s, 23int, 2nat);
    let s = s.push(23int);
    assert(product(s) == 46int);
    lemma_certificate(n, 5, s);
    s
}

/// 47 is prime.
pub proof fn lemma_prime_47()
    ensures
        is_prime(47int),
{
    let factors = lemma_certificate_47();
    lemma_lucas(47int, 5, factors);
}

/// A power of a base, computed from the bits of the exponent.
proof fn lemma_power_53_root()
    ensures
        power_is(2int, 2nat, 53int, 4int),
{
    let n = 53int;
    let b = 2int;
    lemma_power_one(b, n);
    let e = 1nat;
    let a = 2int;
    let q = 0int;
    let r = 4int;
    lemma_power_square(b, n, e, a, q, r);
    let e = 2 * e;
    let a = r;
}

/// A power of a base, computed from the bits of the exponent.
proof fn lemma_power_53_ta()
    ensures
        power_is(4int, 2nat, 53int, 16int),
{
    let n = 53int;
    let b = 4int;
    lemma_power_one(b, n);
    let e = 1nat;
    let a = 4int;
    let q = 0int;
    let r = 16int;
    lemma_power_square(b, n, e, a, q, r);
    let e = 2 * e;
    let a = r;
}

/// A power of the base of the certificate, as the power of a power.
proof fn lemma_node_53_ta()
    ensures
        power_is(2int, 4nat, 53int, 16int),
{
    lemma_power_53_root();
    lemma_power_53_ta();
    lemma_power_of_power(2int, 2nat, 53int, 4int, 2nat, 16int);
    assert(2nat * 2nat == 4nat);
}

/// A power of a base, computed from the bits of the exponent.
proof fn lemma_power_53_tb()
    ensures
        power_is(4int, 13nat, 53int, 52int),
{
    let n = 53int;
    let b = 4int;
    lemma_power_one(b, n);
    let e = 1nat;
    let a = 4int;
    let q = 0int;
    let r = 16int;
    lemma_power_square(b, n, e, a, q, r);
    let e = 2 * e;
    let a = r;
    let q = 1int;
    let r = 11int;
    lemma_power_times(b, n, e, a, q, r);
    let e = e + 1;
    let a = r;
    let q = 2int;
    let r = 15int;
    lemma_power_square(b, n, e, a, q, r);
    let e = 2 * e;
    let a = r;
    let q = 4int;
    let r = 13int;
    lemma_power_square(b, n, e, a, q, r);
    let e = 2 * e;
    let a = r;
    let q = 0int;
    let r = 52int;
    lemma_power_times(b, n, e, a, q, r);
    let e = e + 1;
    let a = r;
}

/// A power of the base of the certificate, as the power of a power.
proof fn lemma_node_53_tb()
    ensures
        power_is(2int, 26nat, 53int, 52int),
{
    lemma_power_53_root();
    lemma_power_53_tb();
    lemma_power_of_power(2int, 2nat, 53int, 4int, 13nat, 52int);
    assert(2nat * 13nat == 26nat);
}

/// A power of a base, computed from the bits of the exponent.
proof fn lemma_power_53_full()
    ensures
        power_is(52int, 2nat, 53int, 1int),
{
    let n = 53int;
    let b = 52int;
    lemma_power_one(b, n);
    let e = 1nat;
    let a = 52int;
    let q = 51int;
    let r = 1int;
    lemma_power_square(b, n, e, a, q, r);
    let e = 2 * e;
    let a = r;
}

/// The certificate of 53: base 2, and the prime factors of the
/// number before it.
pub proof fn lemma_certificate_53() -> (factors: Seq<int>)
    ensures
        lucas_certificate(53int, 2, factors),
{
    let n = 53int;
    lemma_prime_2();
    lemma_node_53_tb();
    lemma_power_is(2int, 26nat, n, 52int);
    lemma_prime_13();
    lemma_node_53_ta();
    lemma_power_is(2int, 4nat, n, 16int);
    lemma_power_53_full();
    lemma_power_of_power(2int, 26nat, n, 52int, 2nat, 1);
    assert(26nat * 2nat == 52nat);
    lemma_power_is(2int, 52nat, n, 1);
    lemma_certified_empty(n, 2);
    let s = Seq::<int>::empty();
    lemma_certified_push(n, 2, s, 2int, 26nat);
    let s = s.push(2int);
    assert(product(s) == 2int);
    lemma_certified_push(n, 2, s, 2int, 26nat);
    let s = s.push(2int);
    assert(product(s) == 4int);
    lemma_certified_push(n, 2, s, 13int, 4nat);
    let s = s.push(13int);
    assert(product(s) == 52int);
    lemma_certificate(n, 2, s);
    s
}

/// 53 is prime.
pub proof fn lemma_prime_53()
    ensures
        is_prime(53int),
{
    let factors = lemma_certificate_53();
    lemma_lucas(53int, 2, factors);
}

/// A power of a base, computed from the bits of the exponent.
proof fn lemma_power_71_root()
    ensures
        power_is(7int, 1nat, 71int, 7int),
{
    let n = 71int;
    let b = 7int;
    lemma_power_one(b, n);
    let e = 1nat;
    let a = 7int;
}

/// A power of a base, computed from the bits of the exponent.
proof fn lemma_power_71_ta()
    ensures
        power_is(7int, 5nat, 71int, 51int),
{
    let n = 71int;
    let b = 7int;
    lemma_power_one(b, n);
    let e = 1nat;
    let a = 7int;
    let q = 0int;
    let r = 49int;
    lemma_power_square(b, n, e, a, q, r);
    let e = 2 * e;
    let a = r;
    let q = 33int;
    let r = 58int;
    lemma_power_square(b, n, e, a, q, r);
    let e = 2 * e;
    let a = r;
    let q = 5int;
    let r = 51int;
    lemma_power_times(b, n, e, a, q, r);
    let e = e + 1;
    let a = r;
}

/// A power of the base of the certificate, as the power of a power.
proof fn lemma_node_71_ta()
    ensures
        power_is(7int, 5nat, 71int, 51int),
{
    lemma_power_71_root();
    lemma_power_71_ta();
    lemma_power_of_power(7int, 1nat, 71int, 7int, 5nat, 51int);
    assert(1nat * 5nat == 5nat);
}

/// A power of a base, computed from the bits of the exponent.
proof fn lemma_power_71_taa()
    ensures
        power_is(51int, 2nat, 71int, 45int),
{
    let n = 71int;
    let b = 51int;
    lemma_power_one(b, n);
    let e = 1nat;
    let a = 51int;
    let q = 36int;
    let r = 45int;
    lemma_power_square(b, n, e, a, q, r);
    let e = 2 * e;
    let a = r;
}

/// A power of the base of the certificate, as the power of a power.
proof fn lemma_node_71_taa()
    ensures
        power_is(7int, 10nat, 71int, 45int),
{
    lemma_node_71_ta();
    lemma_power_71_taa();
    lemma_power_of_power(7int, 5nat, 71int, 51int, 2nat, 45int);
    assert(5nat * 2nat == 10nat);
}

/// A power of a base, computed from the bits of the exponent.
proof fn lemma_power_71_tab()
    ensures
        power_is(51int, 7nat, 71int, 70int),
{
    let n = 71int;
    let b = 51int;
    lemma_power_one(b, n);
    let e = 1nat;
    let a = 51int;
    let q = 36int;
    let r = 45int;
    lemma_power_square(b, n, e, a, q, r);
    let e = 2 * e;
    let a = r;
    let q = 32int;
    let r = 23int;
    lemma_power_times(b, n, e, a, q, r);
    let e = e + 1;
    let a = r;
    let q = 7int;
    let r = 32int;
    lemma_power_square(b, n, e, a, q, r);
    let e = 2 * e;
    let a = r;
    let q = 22int;
    let r = 70int;
    lemma_power_times(b, n, e, a, q, r);
    let e = e + 1;
    let a = r;
}

/// A power of the base of the certificate, as the power of a power.
proof fn lemma_node_71_tab()
    ensures
        power_is(7int, 35nat, 71int, 70int),
{
    lemma_node_71_ta();
    lemma_power_71_tab();
    lemma_power_of_power(7int, 5nat, 71int, 51int, 7nat, 70int);
    assert(5nat * 7nat == 35nat);
}

/// A power of a base, computed from the bits of the exponent.
proof fn lemma_power_71_tb()
    ensures
        power_is(7int, 14nat, 71int, 54int),
{
    let n = 71int;
    let b = 7int;
    lemma_power_one(b, n);
    let e = 1nat;
    let a = 7int;
    let q = 0int;
    let r = 49int;
    lemma_power_square(b, n, e, a, q, r);
    let e = 2 * e;
    let a = r;
    let q = 4int;
    let r = 59int;
    lemma_power_times(b, n, e, a, q, r);
    let e = e + 1;
    let a = r;
    let q = 49int;
    let r = 2int;
    lemma_power_square(b, n, e, a, q, r);
    let e = 2 * e;
    let a = r;
    let q = 0int;
    let r = 14int;
    lemma_power_times(b, n, e, a, q, r);
    let e = e + 1;
    let a = r;
    let q = 2int;
    let r = 54int;
    lemma_power_square(b, n, e, a, q, r);
    let e = 2 * e;
    let a = r;
}

/// A power of the base of the certificate, as the power of a power.
proof fn lemma_node_71_tb()
    ensures
        power_is(7int, 14nat, 71int, 54int),
{
    lemma_power_71_root();
    lemma_power_71_tb();
    lemma_power_of_power(7int, 1nat, 71int, 7int, 14nat, 54int);
    assert(1nat * 14nat == 14nat);
}

/// A power of a base, computed from the bits of the exponent.
proof fn lemma_power_71_full()
    ensures
        power_is(70int, 2nat, 71int, 1int),
{
    let n = 71int;
    let b = 70int;
    lemma_power_one(b, n);
    let e = 1nat;
    let a = 70int;
    let q = 69int;
    let r = 1int;
    lemma_power_square(b, n, e, a, q, r);
    let e = 2 * e;
    let a = r;
}

/// The certificate of 71: base 7, and the prime factors of the
/// number before it.
pub proof fn lemma_certificate_71() -> (factors: Seq<int>)
    ensures
        lucas_certificate(71int, 7, factors),
{
    let n = 71int;
    lemma_prime_2();
    lemma_node_71_tab();
    lemma_power_is(7int, 35nat, n, 70int);
    lemma_prime_5();
    lemma_node_71_tb();
    lemma_power_is(7int, 14nat, n, 54int);
    lemma_prime_7();
    lemma_node_71_taa();
    lemma_power_is(7int, 10nat, n, 45int);
    lemma_power_71_full();
    lemma_power_of_power(7int, 35nat, n, 70int, 2nat, 1);
    assert(35nat * 2nat == 70nat);
    lemma_power_is(7int, 70nat, n, 1);
    lemma_certified_empty(n, 7);
    let s = Seq::<int>::empty();
    lemma_certified_push(n, 7, s, 2int, 35nat);
    let s = s.push(2int);
    assert(product(s) == 2int);
    lemma_certified_push(n, 7, s, 5int, 14nat);
    let s = s.push(5int);
    assert(product(s) == 10int);
    lemma_certified_push(n, 7, s, 7int, 10nat);
    let s = s.push(7int);
    assert(product(s) == 70int);
    lemma_certificate(n, 7, s);
    s
}

/// 71 is prime.
pub proof fn lemma_prime_71()
    ensures
        is_prime(71int),
{
    let factors = lemma_certificate_71();
    lemma_lucas(71int, 7, factors);
}

/// A power of a base, computed from the bits of the exponent.
proof fn lemma_power_83_root()
    ensures
        power_is(2int, 1nat, 83int, 2int),
{
    let n = 83int;
    let b = 2int;
    lemma_power_one(b, n);
    let e = 1nat;
    let a = 2int;
}

/// A power of a base, computed from the bits of the exponent.
proof fn lemma_power_83_ta()
    ensures
        power_is(2int, 2nat, 83int, 4int),
{
    let n = 83int;
    let b = 2int;
    lemma_power_one(b, n);
    let e = 1nat;
    let a = 2int;
    let q = 0int;
    let r = 4int;
    lemma_power_square(b, n, e, a, q, r);
    let e = 2 * e;
    let a = r;
}

/// A power of the base of the certificate, as the power of a power.
proof fn lemma_node_83_ta()
    ensures
        power_is(2int, 2nat, 83int, 4int),
{
    lemma_power_83_root();
    lemma_power_83_ta();
    lemma_power_of_power(2int, 1nat, 83int, 2int, 2nat, 4int);
    assert(1nat * 2nat == 2nat);
}

/// A power of a base, computed from the bits of the exponent.
proof fn lemma_power_83_tb()
    ensures
        power_is(2int, 41nat, 83int, 82int),
{
    let n = 83int;
    let b = 2int;
    lemma_power_one(b, n);
    let e = 1nat;
    let a = 2int;
    let q = 0int;
    let r = 4int;
    lemma_power_square(b, n, e, a, q, r);
    let e = 2 * e;
    let a = r;
    let q = 0int;
    let r = 16int;
    lemma_power_square(b, n, e, a, q, r);
    let e = 2 * e;
    let a = r;
    let q = 0int;
    let r = 32int;
    lemma_power_times(b, n, e, a, q, r);
    let e = e + 1;
    let a = r;
    let q = 12int;
    let r = 28int;
    lemma_power_square(b, n, e, a, q, r);
    let e = 2 * e;
    let a = r;
    let q = 9int;
    let r = 37int;
    lemma_power_square(b, n, e, a, q, r);
    let e = 2 * e;
    let a = r;
    let q = 16int;
    let r = 41int;
    lemma_power_square(b, n, e, a, q, r);
    let e = 2 * e;
    let a = r;
    let q = 0int;
    let r = 82int;
    lemma_power_times(b, n, e, a, q, r);
    let e = e + 1;
    let a = r;
}

/// A power of the base of the certificate, as the power of a power.
proof fn lemma_node_83_tb()
    ensures
        power_is(2int, 41nat, 83int, 82int),
{
    lemma_power_83_root();
    lemma_power_83_tb();
    lemma_power_of_power(2int, 1nat, 83int, 2int, 41nat, 82int);
    assert(1nat * 41nat == 41nat);
}

/// A power of a base, computed from the bits of the exponent.
proof fn lemma_power_83_full()
    ensures
        power_is(82int, 2nat, 83int, 1int),
{
    let n = 83int;
    let b = 82int;
    lemma_power_one(b, n);
    let e = 1nat;
    let a = 82int;
    let q = 81int;
    let r = 1int;
    lemma_power_square(b, n, e, a, q, r);
    let e = 2 * e;
    let a = r;
}

/// The certificate of 83: base 2, and the prime factors of the
/// number before it.
pub proof fn lemma_certificate_83() -> (factors: Seq<int>)
    ensures
        lucas_certificate(83int, 2, factors),
{
    let n = 83int;
    lemma_prime_2();
    lemma_node_83_tb();
    lemma_power_is(2int, 41nat, n, 82int);
    lemma_prime_41();
    lemma_node_83_ta();
    lemma_power_is(2int, 2nat, n, 4int);
    lemma_power_83_full();
    lemma_power_of_power(2int, 41nat, n, 82int, 2nat, 1);
    assert(41nat * 2nat == 82nat);
    lemma_power_is(2int, 82nat, n, 1);
    lemma_certified_empty(n, 2);
    let s = Seq::<int>::empty();
    lemma_certified_push(n, 2, s, 2int, 41nat);
    let s = s.push(2int);
    assert(product(s) == 2int);
    lemma_certified_push(n, 2, s, 41int, 2nat);
    let s = s.push(41int);
    assert(product(s) == 82int);
    lemma_certificate(n, 2, s);
    s
}

/// 83 is prime.
pub proof fn lemma_prime_83()
    ensures
        is_prime(83int),
{
    let factors = lemma_certificate_83();
    lemma_lucas(83int, 2, factors);
}

/// A power of a base, computed from the bits of the exponent.
proof fn lemma_power_107_root()
    ensures
        power_is(2int, 1nat, 107int, 2int),
{
    let n = 107int;
    let b = 2int;
    lemma_power_one(b, n);
    let e = 1nat;
    let a = 2int;
}

/// A power of a base, computed from the bits of the exponent.
proof fn lemma_power_107_ta()
    ensures
        power_is(2int, 2nat, 107int, 4int),
{
    let n = 107int;
    let b = 2int;
    lemma_power_one(b, n);
    let e = 1nat;
    let a = 2int;
    let q = 0int;
    let r = 4int;
    lemma_power_square(b, n, e, a, q, r);
    let e = 2 * e;
    let a = r;
}

/// A power of the base of the certificate, as the power of a power.
proof fn lemma_node_107_ta()
    ensures
        power_is(2int, 2nat, 107int, 4int),
{
    lemma_power_107_root();
    lemma_power_107_ta();
    lemma_power_of_power(2int, 1nat, 107int, 2int, 2nat, 4int);
    assert(1nat * 2nat == 2nat);
}

/// A power of a base, computed from the bits of the exponent.
proof fn lemma_power_107_tb()
    ensures
        power_is(2int, 53nat, 107int, 106int),
{
    let n = 107int;
    let b = 2int;
    lemma_power_one(b, n);
    let e = 1nat;
    let a = 2int;
    let q = 0int;
    let r = 4int;
    lemma_power_square(b, n, e, a, q, r);
    let e = 2 * e;
    let a = r;
    let q = 0int;
    let r = 8int;
    lemma_power_times(b, n, e, a, q, r);
    let e = e + 1;
    let a = r;
    let q = 0int;
    let r = 64int;
    lemma_power_square(b, n, e, a, q, r);
    let e = 2 * e;
    let a = r;
    let q = 38int;
    let r = 30int;
    lemma_power_square(b, n, e, a, q, r);
    let e = 2 * e;
    let a = r;
    let q = 0int;
    let r = 60int;
    lemma_power_times(b, n, e, a, q, r);
    let e = e + 1;
    let a = r;
    let q = 33int;
    let r = 69int;
    lemma_power_square(b, n, e, a, q, r);
    let e = 2 * e;
    let a = r;
    let q = 44int;
    let r = 53int;
    lemma_power_square(b, n, e, a, q, r);
    let e = 2 * e;
    let a = r;
    let q = 0int;
    let r = 106int;
    lemma_power_times(b, n, e, a, q, r);
    let e = e + 1;
    let a = r;
}

/// A power of the base of the certificate, as the power of a power.
proof fn lemma_node_107_tb()
    ensures
        power_is(2int, 53nat, 107int, 106int),
{
    lemma_power_107_root();
    lemma_power_107_tb();
    lemma_power_of_power(2int, 1nat, 107int, 2int, 53nat, 106int);
    assert(1nat * 53nat == 53nat);
}

/// A power of a base, computed from the bits of the exponent.
proof fn lemma_power_107_full()
    ensures
        power_is(106int, 2nat, 107int, 1int),
{
    let n = 107int;
    let b = 106int;
    lemma_power_one(b, n);
    let e = 1nat;
    let a = 106int;
    let q = 105int;
    let r = 1int;
    lemma_power_square(b, n, e, a, q, r);
    let e = 2 * e;
    let a = r;
}

/// The certificate of 107: base 2, and the prime factors of the
/// number before it.
pub proof fn lemma_certificate_107() -> (factors: Seq<int>)
    ensures
        lucas_certificate(107int, 2, factors),
{
    let n = 107int;
    lemma_prime_2();
    lemma_node_107_tb();
    lemma_power_is(2int, 53nat, n, 106int);
    lemma_prime_53();
    lemma_node_107_ta();
    lemma_power_is(2int, 2nat, n, 4int);
    lemma_power_107_full();
    lemma_power_of_power(2int, 53nat, n, 106int, 2nat, 1);
    assert(53nat * 2nat == 106nat);
    lemma_power_is(2int, 106nat, n, 1);
    lemma_certified_empty(n, 2);
    let s = Seq::<int>::empty();
    lemma_certified_push(n, 2, s, 2int, 53nat);
    let s = s.push(2int);
    assert(product(s) == 2int);
    lemma_certified_push(n, 2, s, 53int, 2nat);
    let s = s.push(53int);
    assert(product(s) == 106int);
    lemma_certificate(n, 2, s);
    s
}

/// 107 is prime.
pub proof fn lemma_prime_107()
    ensures
        is_prime(107int),
{
    let factors = lemma_certificate_107();
    lemma_lucas(107int, 2, factors);
}

/// A power of a base, computed from the bits of the exponent.
proof fn lemma_power_137_root()
    ensures
        power_is(3int, 4nat, 137int, 81int),
{
    let n = 137int;
    let b = 3int;
    lemma_power_one(b, n);
    let e = 1nat;
    let a = 3int;
    let q = 0int;
    let r = 9int;
    lemma_power_square(b, n, e, a, q, r);
    let e = 2 * e;
    let a = r;
    let q = 0int;
    let r = 81int;
    lemma_power_square(b, n, e, a, q, r);
    let e = 2 * e;
    let a = r;
}

/// A power of a base, computed from the bits of the exponent.
proof fn lemma_power_137_ta()
    ensures
        power_is(81int, 2nat, 137int, 122int),
{
    let n = 137int;
    let b = 81int;
    lemma_power_one(b, n);
    let e = 1nat;
    let a = 81int;
    let q = 47int;
    let r = 122int;
    lemma_power_square(b, n, e, a, q, r);
    let e = 2 * e;
    let a = r;
}

/// A power of the base of the certificate, as the power of a power.
proof fn lemma_node_137_ta()
    ensures
        power_is(3int, 8nat, 137int, 122int),
{
    lemma_power_137_root();
    lemma_power_137_ta();
    lemma_power_of_power(3int, 4nat, 137int, 81int, 2nat, 122int);
    assert(4nat * 2nat == 8nat);
}

/// A power of a base, computed from the bits of the exponent.
proof fn lemma_power_137_tb()
    ensures
        power_is(81int, 17nat, 137int, 136int),
{
    let n = 137int;
    let b = 81int;
    lemma_power_one(b, n);
    let e = 1nat;
    let a = 81int;
    let q = 47int;
    let r = 122int;
    lemma_power_square(b, n, e, a, q, r);
    let e = 2 * e;
    let a = r;
    let q = 108int;
    let r = 88int;
    lemma_power_square(b, n, e, a, q, r);
    let e = 2 * e;
    let a = r;
    let q = 56int;
    let r = 72int;
    lemma_power_square(b, n, e, a, q, r);
    let e = 2 * e;
    let a = r;
    let q = 37int;
    let r = 115int;
    lemma_power_square(b, n, e, a, q, r);
    let e = 2 * e;
    let a = r;
    let q = 67int;
    let r = 136int;
    lemma_power_times(b, n, e, a, q, r);
    let e = e + 1;
    let a = r;
}

/// A power of the base of the certificate, as the power of a power.
proof fn lemma_node_137_tb()
    ensures
        power_is(3int, 68nat, 137int, 136int),
{
    lemma_power_137_root();
    lemma_power_137_tb();
    lemma_power_of_power(3int, 4nat, 137int, 81int, 17nat, 136int);
    assert(4nat * 17nat == 68nat);
}

/// A power of a base, computed from the bits of the exponent.
proof fn lemma_power_137_full()
    ensures
        power_is(136int, 2nat, 137int, 1int),
{
    let n = 137int;
    let b = 136int;
    lemma_power_one(b, n);
    let e = 1nat;
    let a = 136int;
    let q = 135int;
    let r = 1int;
    lemma_power_square(b, n, e, a, q, r);
    let e = 2 * e;
    let a = r;
}

/// The certificate of 137: base 3, and the prime factors of the
/// number before it.
pub proof fn lemma_certificate_137() -> (factors: Seq<int>)
    ensures
        lucas_certificate(137int, 3, factors),
{
    let n = 137int;
    lemma_prime_2();
    lemma_node_137_tb();
    lemma_power_is(3int, 68nat, n, 136int);
    lemma_prime_17();
    lemma_node_137_ta();
    lemma_power_is(3int, 8nat, n, 122int);
    lemma_power_137_full();
    lemma_power_of_power(3int, 68nat, n, 136int, 2nat, 1);
    assert(68nat * 2nat == 136nat);
    lemma_power_is(3int, 136nat, n, 1);
    lemma_certified_empty(n, 3);
    let s = Seq::<int>::empty();
    lemma_certified_push(n, 3, s, 2int, 68nat);
    let s = s.push(2int);
    assert(product(s) == 2int);
    lemma_certified_push(n, 3, s, 2int, 68nat);
    let s = s.push(2int);
    assert(product(s) == 4int);
    lemma_certified_push(n, 3, s, 2int, 68nat);
    let s = s.push(2int);
    assert(product(s) == 8int);
    lemma_certified_push(n, 3, s, 17int, 8nat);
    let s = s.push(17int);
    assert(product(s) == 136int);
    lemma_certificate(n, 3, s);
    s
}

/// 137 is prime.
pub proof fn lemma_prime_137()
    ensures
        is_prime(137int),
{
    let factors = lemma_certificate_137();
    lemma_lucas(137int, 3, factors);
}

/// A power of a base, computed from the bits of the exponent.
proof fn lemma_power_223_root()
    ensures
        power_is(3int, 1nat, 223int, 3int),
{
    let n = 223int;
    let b = 3int;
    lemma_power_one(b, n);
    let e = 1nat;
    let a = 3int;
}

/// A power of a base, computed from the bits of the exponent.
proof fn lemma_power_223_ta()
    ensures
        power_is(3int, 6nat, 223int, 60int),
{
    let n = 223int;
    let b = 3int;
    lemma_power_one(b, n);
    let e = 1nat;
    let a = 3int;
    let q = 0int;
    let r = 9int;
    lemma_power_square(b, n, e, a, q, r);
    let e = 2 * e;
    let a = r;
    let q = 0int;
    let r = 27int;
    lemma_power_times(b, n, e, a, q, r);
    let e = e + 1;
    let a = r;
    let q = 3int;
    let r = 60int;
    lemma_power_square(b, n, e, a, q, r);
    let e = 2 * e;
    let a = r;
}

/// A power of the base of the certificate, as the power of a power.
proof fn lemma_node_223_ta()
    ensures
        power_is(3int, 6nat, 223int, 60int),
{
    lemma_power_223_root();
    lemma_power_223_ta();
    lemma_power_of_power(3int, 1nat, 223int, 3int, 6nat, 60int);
    assert(1nat * 6nat == 6nat);
}

/// A power of a base, computed from the bits of the exponent.
proof fn lemma_power_223_tb()
    ensures
        power_is(3int, 37nat, 223int, 184int),
{
    let n = 223int;
    let b = 3int;
    lemma_power_one(b, n);
    let e = 1nat;
    let a = 3int;
    let q = 0int;
    let r = 9int;
    lemma_power_square(b, n, e, a, q, r);
    let e = 2 * e;
    let a = r;
    let q = 0int;
    let r = 81int;
    lemma_power_square(b, n, e, a, q, r);
    let e = 2 * e;
    let a = r;
    let q = 29int;
    let r = 94int;
    lemma_power_square(b, n, e, a, q, r);
    let e = 2 * e;
    let a = r;
    let q = 1int;
    let r = 59int;
    lemma_power_times(b, n, e, a, q, r);
    let e = e + 1;
    let a = r;
    let q = 15int;
    let r = 136int;
    lemma_power_square(b, n, e, a, q, r);
    let e = 2 * e;
    let a = r;
    let q = 82int;
    let r = 210int;
    lemma_power_square(b, n, e, a, q, r);
    let e = 2 * e;
    let a = r;
    let q = 2int;
    let r = 184int;
    lemma_power_times(b, n, e, a, q, r);
    let e = e + 1;
    let a = r;
}

/// A power of the base of the certificate, as the power of a power.
proof fn lemma_node_223_tb()
    ensures
        power_is(3int, 37nat, 223int, 184int),
{
    lemma_power_223_root();
    lemma_power_223_tb();
    lemma_power_of_power(3int, 1nat, 223int, 3int, 37nat, 184int);
    assert(1nat * 37nat == 37nat);
}

/// A power of a base, computed from the bits of the exponent.
proof fn lemma_power_223_tba()
    ensures
        power_is(184int, 2nat, 223int, 183int),
{
    let n = 223int;
    let b = 184int;
    lemma_power_one(b, n);
    let e = 1nat;
    let a = 184int;
    let q = 151int;
    let r = 183int;
    lemma_power_square(b, n, e, a, q, r);
    let e = 2 * e;
    let a = r;
}

/// A power of the base of the certificate, as the power of a power.
proof fn lemma_node_223_tba()
    ensures
        power_is(3int, 74nat, 223int, 183int),
{
    lemma_node_223_tb();
    lemma_power_223_tba();
    lemma_power_of_power(3int, 37nat, 223int, 184int, 2nat, 183int);
    assert(37nat * 2nat == 74nat);
}

/// A power of a base, computed from the bits of the exponent.
proof fn lemma_power_223_tbb()
    ensures
        power_is(184int, 3nat, 223int, 222int),
{
    let n = 223int;
    let b = 184int;
    lemma_power_one(b, n);
    let e = 1nat;
    let a = 184int;
    let q = 151int;
    let r = 183int;
    lemma_power_square(b, n, e, a, q, r);
    let e = 2 * e;
    let a = r;
    let q = 150int;
    let r = 222int;
    lemma_power_times(b, n, e, a, q, r);
    let e = e + 1;
    let a = r;
}

/// A power of the base of the certificate, as the power of a power.
proof fn lemma_node_223_tbb()
    ensures
        power_is(3int, 111nat, 223int, 222int),
{
    lemma_node_223_tb();
    lemma_power_223_tbb();
    lemma_power_of_power(3int, 37nat, 223int, 184int, 3nat, 222int);
    assert(37nat * 3nat == 111nat);
}

/// A power of a base, computed from the bits of the exponent.
proof fn lemma_power_223_full()
    ensures
        power_is(222int, 2nat, 223int, 1int),
{
    let n = 223int;
    let b = 222int;
    lemma_power_one(b, n);
    let e = 1nat;
    let a = 222int;
    let q = 221int;
    let r = 1int;
    lemma_power_square(b, n, e, a, q, r);
    let e = 2 * e;
    let a = r;
}

/// The certificate of 223: base 3, and the prime factors of the
/// number before it.
pub proof fn lemma_certificate_223() -> (factors: Seq<int>)
    ensures
        lucas_certificate(223int, 3, factors),
{
    let n = 223int;
    lemma_prime_2();
    lemma_node_223_tbb();
    lemma_power_is(3int, 111nat, n, 222int);
    lemma_prime_3();
    lemma_node_223_tba();
    lemma_power_is(3int, 74nat, n, 183int);
    lemma_prime_37();
    lemma_node_223_ta();
    lemma_power_is(3int, 6nat, n, 60int);
    lemma_power_223_full();
    lemma_power_of_power(3int, 111nat, n, 222int, 2nat, 1);
    assert(111nat * 2nat == 222nat);
    lemma_power_is(3int, 222nat, n, 1);
    lemma_certified_empty(n, 3);
    let s = Seq::<int>::empty();
    lemma_certified_push(n, 3, s, 2int, 111nat);
    let s = s.push(2int);
    assert(product(s) == 2int);
    lemma_certified_push(n, 3, s, 3int, 74nat);
    let s = s.push(3int);
    assert(product(s) == 6int);
    lemma_certified_push(n, 3, s, 37int, 6nat);
    let s = s.push(37int);
    assert(product(s) == 222int);
    lemma_certificate(n, 3, s);
    s
}

/// 223 is prime.
pub proof fn lemma_prime_223()
    ensures
        is_prime(223int),
{
    let factors = lemma_certificate_223();
    lemma_lucas(223int, 3, factors);
}

/// A power of a base, computed from the bits of the exponent.
proof fn lemma_power_229_root()
    ensures
        power_is(6int, 2nat, 229int, 36int),
{
    let n = 229int;
    let b = 6int;
    lemma_power_one(b, n);
    let e = 1nat;
    let a = 6int;
    let q = 0int;
    let r = 36int;
    lemma_power_square(b, n, e, a, q, r);
    let e = 2 * e;
    let a = r;
}

/// A power of a base, computed from the bits of the exponent.
proof fn lemma_power_229_ta()
    ensures
        power_is(36int, 6nat, 229int, 165int),
{
    let n = 229int;
    let b = 36int;
    lemma_power_one(b, n);
    let e = 1nat;
    let a = 36int;
    let q = 5int;
    let r = 151int;
    lemma_power_square(b, n, e, a, q, r);
    let e = 2 * e;
    let a = r;
    let q = 23int;
    let r = 169int;
    lemma_power_times(b, n, e, a, q, r);
    let e = e + 1;
    let a = r;
    let q = 124int;
    let r = 165int;
    lemma_power_square(b, n, e, a, q, r);
    let e = 2 * e;
    let a = r;
}

/// A power of the base of the certificate, as the power of a power.
proof fn lemma_node_229_ta()
    ensures
        power_is(6int, 12nat, 229int, 165int),
{
    lemma_power_229_root();
    lemma_power_229_ta();
    lemma_power_of_power(6int, 2nat, 229int, 36int, 6nat, 165int);
    assert(2nat * 6nat == 12nat);
}

/// A power of a base, computed from the bits of the exponent.
proof fn lemma_power_229_tb()
    ensures
        power_is(36int, 19nat, 229int, 135int),
{
    let n = 229int;
    let b = 36int;
    lemma_power_one(b, n);
    let e = 1nat;
    let a = 36int;
    let q = 5int;
    let r = 151int;
    lemma_power_square(b, n, e, a, q, r);
    let e = 2 * e;
    let a = r;
    let q = 99int;
    let r = 130int;
    lemma_power_square(b, n, e, a, q, r);
    let e = 2 * e;
    let a = r;
    let q = 73int;
    let r = 183int;
    lemma_power_square(b, n, e, a, q, r);
    let e = 2 * e;
    let a = r;
    let q = 28int;
    let r = 176int;
    lemma_power_times(b, n, e, a, q, r);
    let e = e + 1;
    let a = r;
    let q = 135int;
    let r = 61int;
    lemma_power_square(b, n, e, a, q, r);
    let e = 2 * e;
    let a = r;
    let q = 9int;
    let r = 135int;
    lemma_power_times(b, n, e, a, q, r);
    let e = e + 1;
    let a = r;
}

/// A power of the base of the certificate, as the power of a power.
proof fn lemma_node_229_tb()
    ensures
        power_is(6int, 38nat, 229int, 135int),
{
    lemma_power_229_root();
    lemma_power_229_tb();
    lemma_power_of_power(6int, 2nat, 229int, 36int, 19nat, 135int);
    assert(2nat * 19nat == 38nat);
}

/// A power of a base, computed from the bits of the exponent.
proof fn lemma_power_229_tba()
    ensures
        power_is(135int, 2nat, 229int, 134int),
{
    let n = 229int;
    let b = 135int;
    lemma_power_one(b, n);
    let e = 1nat;
    let a = 135int;
    let q = 79int;
    let r = 134int;
    lemma_power_square(b, n, e, a, q, r);
    let e = 2 * e;
    let a = r;
}

/// A power of the base of the certificate, as the power of a power.
proof fn lemma_node_229_tba()
    ensures
        power_is(6int, 76nat, 229int, 134int),
{
    lemma_node_229_tb();
    lemma_power_229_tba();
    lemma_power_of_power(6int, 38nat, 229int, 135int, 2nat, 134int);
    assert(38nat * 2nat == 76nat);
}

/// A power of a base, computed from the bits of the exponent.
proof fn lemma_power_229_tbb()
    ensures
        power_is(135int, 3nat, 229int, 228int),
{
    let n = 229int;
    let b = 135int;
    lemma_power_one(b, n);
    let e = 1nat;
    let a = 135int;
    let q = 79int;
    let r = 134int;
    lemma_power_square(b, n, e, a, q, r);
    let e = 2 * e;
    let a = r;
    let q = 78int;
    let r = 228int;
    lemma_power_times(b, n, e, a, q, r);
    let e = e + 1;
    let a = r;
}

/// A power of the base of the certificate, as the power of a power.
proof fn lemma_node_229_tbb()
    ensures
        power_is(6int, 114nat, 229int, 228int),
{
    lemma_node_229_tb();
    lemma_power_229_tbb();
    lemma_power_of_power(6int, 38nat, 229int, 135int, 3nat, 228int);
    assert(38nat * 3nat == 114nat);
}

/// A power of a base, computed from the bits of the exponent.
proof fn lemma_power_229_full()
    ensures
        power_is(228int, 2nat, 229int, 1int),
{
    let n = 229int;
    let b = 228int;
    lemma_power_one(b, n);
    let e = 1nat;
    let a = 228int;
    let q = 227int;
    let r = 1int;
    lemma_power_square(b, n, e, a, q, r);
    let e = 2 * e;
    let a = r;
}

/// The certificate of 229: base 6, and the prime factors of the
/// number before it.
pub proof fn lemma_certificate_229() -> (factors: Seq<int>)
    ensures
        lucas_certificate(229int, 6, factors),
{
    let n = 229int;
    lemma_prime_2();
    lemma_node_229_tbb();
    lemma_power_is(6int, 114nat, n, 228int);
    lemma_prime_3();
    lemma_node_229_tba();
    lemma_power_is(6int, 76nat, n, 134int);
    lemma_prime_19();
    lemma_node_229_ta();
    lemma_power_is(6int, 12nat, n, 165int);
    lemma_power_229_full();
    lemma_power_of_power(6int, 114nat, n, 228int, 2nat, 1);
    assert(114nat * 2nat == 228nat);
    lemma_power_is(6int, 228nat, n, 1);
    lemma_certified_empty(n, 6);
    let s = Seq::<int>::empty();
    lemma_certified_push(n, 6, s, 2int, 114nat);
    let s = s.push(2int);
    assert(product(s) == 2int);
    lemma_certified_push(n, 6, s, 2int, 114nat);
    let s = s.push(2int);
    assert(product(s) == 4int);
    lemma_certified_push(n, 6, s, 3int, 76nat);
    let s = s.push(3int);
    assert(product(s) == 12int);
    lemma_certified_push(n, 6, s, 19int, 12nat);
    let s = s.push(19int);
    assert(product(s) == 228int);
    lemma_certificate(n, 6, s);
    s
}

/// 229 is prime.
pub proof fn lemma_prime_229()
    ensures
        is_prime(229int),
{
    let factors = lemma_certificate_229();
    lemma_lucas(229int, 6, factors);
}

/// A power of a base, computed from the bits of the exponent.
proof fn lemma_power_379_root()
    ensures
        power_is(2int, 9nat, 379int, 133int),
{
    let n = 379int;
    let b = 2int;
    lemma_power_one(b, n);
    let e = 1nat;
    let a = 2int;
    let q = 0int;
    let r = 4int;
    lemma_power_square(b, n, e, a, q, r);
    let e = 2 * e;
    let a = r;
    let q = 0int;
    let r = 16int;
    lemma_power_square(b, n, e, a, q, r);
    let e = 2 * e;
    let a = r;
    let q = 0int;
    let r = 256int;
    lemma_power_square(b, n, e, a, q, r);
    let e = 2 * e;
    let a = r;
    let q = 1int;
    let r = 133int;
    lemma_power_times(b, n, e, a, q, r);
    let e = e + 1;
    let a = r;
}

/// A power of a base, computed from the bits of the exponent.
proof fn lemma_power_379_ta()
    ensures
        power_is(133int, 6nat, 379int, 125int),
{
    let n = 379int;
    let b = 133int;
    lemma_power_one(b, n);
    let e = 1nat;
    let a = 133int;
    let q = 46int;
    let r = 255int;
    lemma_power_square(b, n, e, a, q, r);
    let e = 2 * e;
    let a = r;
    let q = 89int;
    let r = 184int;
    lemma_power_times(b, n, e, a, q, r);
    let e = e + 1;
    let a = r;
    let q = 89int;
    let r = 125int;
    lemma_power_square(b, n, e, a, q, r);
    let e = 2 * e;
    let a = r;
}

/// A power of the base of the certificate, as the power of a power.
proof fn lemma_node_379_ta()
    ensures
        power_is(2int, 54nat, 379int, 125int),
{
    lemma_power_379_root();
    lemma_power_379_ta();
    lemma_power_of_power(2int, 9nat, 379int, 133int, 6nat, 125int);
    assert(9nat * 6nat == 54nat);
}

/// A power of a base, computed from the bits of the exponent.
proof fn lemma_power_379_tb()
    ensures
        power_is(133int, 7nat, 379int, 328int),
{
    let n = 379int;
    let b = 133int;
    lemma_power_one(b, n);
    let e = 1nat;
    let a = 133int;
    let q = 46int;
    let r = 255int;
    lemma_power_square(b, n, e, a, q, r);
    let e = 2 * e;
    let a = r;
    let q = 89int;
    let r = 184int;
    lemma_power_times(b, n, e, a, q, r);
    let e = e + 1;
    let a = r;
    let q = 89int;
    let r = 125int;
    lemma_power_square(b, n, e, a, q, r);
    let e = 2 * e;
    let a = r;
    let q = 43int;
    let r = 328int;
    lemma_power_times(b, n, e, a, q, r);
    let e = e + 1;
    let a = r;
}

/// A power of the base of the certificate, as the power of a power.
proof fn lemma_node_379_tb()
    ensures
        power_is(2int, 63nat, 379int, 328int),
{
    lemma_power_379_root();
    lemma_power_379_tb();
    lemma_power_of_power(2int, 9nat, 379int, 133int, 7nat, 328int);
    assert(9nat * 7nat == 63nat);
}

/// A power of a base, computed from the bits of the exponent.
proof fn lemma_power_379_tba()
    ensures
        power_is(328int, 2nat, 379int, 327int),
{
    let n = 379int;
    let b = 328int;
    lemma_power_one(b, n);
    let e = 1nat;
    let a = 328int;
    let q = 283int;
    let r = 327int;
    lemma_power_square(b, n, e, a, q, r);
    let e = 2 * e;
    let a = r;
}

/// A power of the base of the certificate, as the power of a power.
proof fn lemma_node_379_tba()
    ensures
        power_is(2int, 126nat, 379int, 327int),
{
    lemma_node_379_tb();
    lemma_power_379_tba();
    lemma_power_of_power(2int, 63nat, 379int, 328int, 2nat, 327int);
    assert(63nat * 2nat == 126nat);
}

/// A power of a base, computed from the bits of the exponent.
proof fn lemma_power_379_tbb()
    ensures
        power_is(328int, 3nat, 379int, 378int),
{
    let n = 379int;
    let b = 328int;
    lemma_power_one(b, n);
    let e = 1nat;
    let a = 328int;
    let q = 283int;
    let r = 327int;
    lemma_power_square(b, n, e, a, q, r);
    let e = 2 * e;
    let a = r;
    let q = 282int;
    let r = 378int;
    lemma_power_times(b, n, e, a, q, r);
    let e = e + 1;
    let a = r;
}

/// A power of the base of the certificate, as the power of a power.
proof fn lemma_node_379_tbb()
    ensures
        power_is(2int, 189nat, 379int, 378int),
{
    lemma_node_379_tb();
    lemma_power_379_tbb();
    lemma_power_of_power(2int, 63nat, 379int, 328int, 3nat, 378int);
    assert(63nat * 3nat == 189nat);
}

/// A power of a base, computed from the bits of the exponent.
proof fn lemma_power_379_full()
    ensures
        power_is(378int, 2nat, 379int, 1int),
{
    let n = 379int;
    let b = 378int;
    lemma_power_one(b, n);
    let e = 1nat;
    let a = 378int;
    let q = 377int;
    let r = 1int;
    lemma_power_square(b, n, e, a, q, r);
    let e = 2 * e;
    let a = r;
}

/// The certificate of 379: base 2, and the prime factors of the
/// number before it.
pub proof fn lemma_certificate_379() -> (factors: Seq<int>)
    ensures
        lucas_certificate(379int, 2, factors),
{
    let n = 379int;
    lemma_prime_2();
    lemma_node_379_tbb();
    lemma_power_is(2int, 189nat, n, 378int);
    lemma_prime_3();
    lemma_node_379_tba();
    lemma_power_is(2int, 126nat, n, 327int);
    lemma_prime_7();
    lemma_node_379_ta();
    lemma_power_is(2int, 54nat, n, 125int);
    lemma_power_379_full();
    lemma_power_of_power(2int, 189nat, n, 378int, 2nat, 1);
    assert(189nat * 2nat == 378nat);
    lemma_power_is(2int, 378nat, n, 1);
    lemma_certified_empty(n, 2);
    let s = Seq::<int>::empty();
    lemma_certified_push(n, 2, s, 2int, 189nat);
    let s = s.push(2int);
    assert(product(s) == 2int);
    lemma_certified_push(n, 2, s, 3int, 126nat);
    let s = s.push(3int);
    assert(product(s) == 6int);
    lemma_certified_push(n, 2, s, 3int, 126nat);
    let s = s.push(3int);
    assert(product(s) == 18int);
    lemma_certified_push(n, 2, s, 3int, 126nat);
    let s = s.push(3int);
    assert(product(s) == 54int);
    lemma_certified_push(n, 2, s, 7int, 54nat);
    let s = s.push(7int);
    assert(product(s) == 378int);
    lemma_certificate(n, 2, s);
    s
}

/// 379 is prime.
pub proof fn lemma_prime_379()
    ensures
        is_prime(379int),
{
    let factors = lemma_certificate_379();
    lemma_lucas(379int, 2, factors);
}

/// A power of a base, computed from the bits of the exponent.
proof fn lemma_power_409_root()
    ensures
        power_is(21int, 4nat, 409int, 206int),
{
    let n = 409int;
    let b = 21int;
    lemma_power_one(b, n);
    let e = 1nat;
    let a = 21int;
    let q = 1int;
    let r = 32int;
    lemma_power_square(b, n, e, a, q, r);
    let e = 2 * e;
    let a = r;
    let q = 2int;
    let r = 206int;
    lemma_power_square(b, n, e, a, q, r);
    let e = 2 * e;
    let a = r;
}

/// A power of a base, computed from the bits of the exponent.
proof fn lemma_power_409_ta()
    ensures
        power_is(206int, 6nat, 409int, 5int),
{
    let n = 409int;
    let b = 206int;
    lemma_power_one(b, n);
    let e = 1nat;
    let a = 206int;
    let q = 103int;
    let r = 309int;
    lemma_power_square(b, n, e, a, q, r);
    let e = 2 * e;
    let a = r;
    let q = 155int;
    let r = 259int;
    lemma_power_times(b, n, e, a, q, r);
    let e = e + 1;
    let a = r;
    let q = 164int;
    let r = 5int;
    lemma_power_square(b, n, e, a, q, r);
    let e = 2 * e;
    let a = r;
}

/// A power of the base of the certificate, as the power of a power.
proof fn lemma_node_409_ta()
    ensures
        power_is(21int, 24nat, 409int, 5int),
{
    lemma_power_409_root();
    lemma_power_409_ta();
    lemma_power_of_power(21int, 4nat, 409int, 206int, 6nat, 5int);
    assert(4nat * 6nat == 24nat);
}

/// A power of a base, computed from the bits of the exponent.
proof fn lemma_power_409_tb()
    ensures
        power_is(206int, 17nat, 409int, 356int),
{
    let n = 409int;
    let b = 206int;
    lemma_power_one(b, n);
    let e = 1nat;
    let a = 206int;
    let q = 103int;
    let r = 309int;
    lemma_power_square(b, n, e, a, q, r);
    let e = 2 * e;
    let a = r;
    let q = 233int;
    let r = 184int;
    lemma_power_square(b, n, e, a, q, r);
    let e = 2 * e;
    let a = r;
    let q = 82int;
    let r = 318int;
    lemma_power_square(b, n, e, a, q, r);
    let e = 2 * e;
    let a = r;
    let q = 247int;
    let r = 101int;
    lemma_power_square(b, n, e, a, q, r);
    let e = 2 * e;
    let a = r;
    let q = 50int;
    let r = 356int;
    lemma_power_times(b, n, e, a, q, r);
    let e = e + 1;
    let a = r;
}

/// A power of the base of the certificate, as the power of a power.
proof fn lemma_node_409_tb()
    ensures
        power_is(21int, 68nat, 409int, 356int),
{
    lemma_power_409_root();
    lemma_power_409_tb();
    lemma_power_of_power(21int, 4nat, 409int, 206int, 17nat, 356int);
    assert(4nat * 17nat == 68nat);
}

/// A power of a base, computed from the bits of the exponent.
proof fn lemma_power_409_tba()
    ensures
        power_is(356int, 2nat, 409int, 355int),
{
    let n = 409int;
    let b = 356int;
    lemma_power_one(b, n);
    let e = 1nat;
    let a = 356int;
    let q = 309int;
    let r = 355int;
    lemma_power_square(b, n, e, a, q, r);
    let e = 2 * e;
    let a = r;
}

/// A power of the base of the certificate, as the power of a power.
proof fn lemma_node_409_tba()
    ensures
        power_is(21int, 136nat, 409int, 355int),
{
    lemma_node_409_tb();
    lemma_power_409_tba();
    lemma_power_of_power(21int, 68nat, 409int, 356int, 2nat, 355int);
    assert(68nat * 2nat == 136nat);
}

/// A power of a base, computed from the bits of the exponent.
proof fn lemma_power_409_tbb()
    ensures
        power_is(356int, 3nat, 409int, 408int),
{
    let n = 409int;
    let b = 356int;
    lemma_power_one(b, n);
    let e = 1nat;
    let a = 356int;
    let q = 309int;
    let r = 355int;
    lemma_power_square(b, n, e, a, q, r);
    let e = 2 * e;
    let a = r;
    let q = 308int;
    let r = 408int;
    lemma_power_times(b, n, e, a, q, r);
    let e = e + 1;
    let a = r;
}

/// A power of the base of the certificate, as the power of a power.
proof fn lemma_node_409_tbb()
    ensures
        power_is(21int, 204nat, 409int, 408int),
{
    lemma_node_409_tb();
    lemma_power_409_tbb();
    lemma_power_of_power(21int, 68nat, 409int, 356int, 3nat, 408int);
    assert(68nat * 3nat == 204nat);
}

/// A power of a base, computed from the bits of the exponent.
proof fn lemma_power_409_full()
    ensures
        power_is(408int, 2nat, 409int, 1int),
{
    let n = 409int;
    let b = 408int;
    lemma_power_one(b, n);
    let e = 1nat;
    let a = 408int;
    let q = 407int;
    let r = 1int;
    lemma_power_square(b, n, e, a, q, r);
    let e = 2 * e;
    let a = r;
}

/// The certificate of 409: base 21, and the prime factors of the
/// number before it.
pub proof fn lemma_certificate_409() -> (factors: Seq<int>)
    ensures
        lucas_certificate(409int, 21, factors),
{
    let n = 409int;
    lemma_prime_2();
    lemma_node_409_tbb();
    lemma_power_is(21int, 204nat, n, 408int);
    lemma_prime_3();
    lemma_node_409_tba();
    lemma_power_is(21int, 136nat, n, 355int);
    lemma_prime_17();
    lemma_node_409_ta();
    lemma_power_is(21int, 24nat, n, 5int);
    lemma_power_409_full();
    lemma_power_of_power(21int, 204nat, n, 408int, 2nat, 1);
    assert(204nat * 2nat == 408nat);
    lemma_power_is(21int, 408nat, n, 1);
    lemma_certified_empty(n, 21);
    let s = Seq::<int>::empty();
    lemma_certified_push(n, 21, s, 2int, 204nat);
    let s = s.push(2int);
    assert(product(s) == 2int);
    lemma_certified_push(n, 21, s, 2int, 204nat);
    let s = s.push(2int);
    assert(product(s) == 4int);
    lemma_certified_push(n, 21, s, 2int, 204nat);
    let s = s.push(2int);
    assert(product(s) == 8int);
    lemma_certified_push(n, 21, s, 3int, 136nat);
    let s = s.push(3int);
    assert(product(s) == 24int);
    lemma_certified_push(n, 21, s, 17int, 24nat);
    let s = s.push(17int);
    assert(product(s) == 408int);
    lemma_certificate(n, 21, s);
    s
}

/// 409 is prime.
pub proof fn lemma_prime_409()
    ensures
        is_prime(409int),
{
    let factors = lemma_certificate_409();
    lemma_lucas(409int, 21, factors);
}

/// A power of a base, computed from the bits of the exponent.
proof fn lemma_power_449_root()
    ensures
        power_is(3int, 32nat, 449int, 431int),
{
    let n = 449int;
    let b = 3int;
    lemma_power_one(b, n);
    let e = 1nat;
    let a = 3int;
    let q = 0int;
    let r = 9int;
    lemma_power_square(b, n, e, a, q, r);
    let e = 2 * e;
    let a = r;
    let q = 0int;
    let r = 81int;
    lemma_power_square(b, n, e, a, q, r);
    let e = 2 * e;
    let a = r;
    let q = 14int;
    let r = 275int;
    lemma_power_square(b, n, e, a, q, r);
    let e = 2 * e;
    let a = r;
    let q = 168int;
    let r = 193int;
    lemma_power_square(b, n, e, a, q, r);
    let e = 2 * e;
    let a = r;
    let q = 82int;
    let r = 431int;
    lemma_power_square(b, n, e, a, q, r);
    let e = 2 * e;
    let a = r;
}

/// A power of a base, computed from the bits of the exponent.
proof fn lemma_power_449_ta()
    ensures
        power_is(431int, 2nat, 449int, 324int),
{
    let n = 449int;
    let b = 431int;
    lemma_power_one(b, n);
    let e = 1nat;
    let a = 431int;
    let q = 413int;
    let r = 324int;
    lemma_power_square(b, n, e, a, q, r);
    let e = 2 * e;
    let a = r;
}

/// A power of the base of the certificate, as the power of a power.
proof fn lemma_node_449_ta()
    ensures
        power_is(3int, 64nat, 449int, 324int),
{
    lemma_power_449_root();
    lemma_power_449_ta();
    lemma_power_of_power(3int, 32nat, 449int, 431int, 2nat, 324int);
    assert(32nat * 2nat == 64nat);
}

/// A power of a base, computed from the bits of the exponent.
proof fn lemma_power_449_tb()
    ensures
        power_is(431int, 7nat, 449int, 448int),
{
    let n = 449int;
    let b = 431int;
    lemma_power_one(b, n);
    let e = 1nat;
    let a = 431int;
    let q = 413int;
    let r = 324int;
    lemma_power_square(b, n, e, a, q, r);
    let e = 2 * e;
    let a = r;
    let q = 311int;
    let r = 5int;
    lemma_power_times(b, n, e, a, q, r);
    let e = e + 1;
    let a = r;
    let q = 0int;
    let r = 25int;
    lemma_power_square(b, n, e, a, q, r);
    let e = 2 * e;
    let a = r;
    let q = 23int;
    let r = 448int;
    lemma_power_times(b, n, e, a, q, r);
    let e = e + 1;
    let a = r;
}

/// A power of the base of the certificate, as the power of a power.
proof fn lemma_node_449_tb()
    ensures
        power_is(3int, 224nat, 449int, 448int),
{
    lemma_power_449_root();
    lemma_power_449_tb();
    lemma_power_of_power(3int, 32nat, 449int, 431int, 7nat, 448int);
    assert(32nat * 7nat == 224nat);
}

/// A power of a base, computed from the bits of the exponent.
proof fn lemma_power_449_full()
    ensures
        power_is(448int, 2nat, 449int, 1int),
{
    let n = 449int;
    let b = 448int;
    lemma_power_one(b, n);
    let e = 1nat;
    let a = 448int;
    let q = 447int;
    let r = 1int;
    lemma_power_square(b, n, e, a, q, r);
    let e = 2 * e;
    let a = r;
}

/// The certificate of 449: base 3, and the prime factors of the
/// number before it.
pub proof fn lemma_certificate_449() -> (factors: Seq<int>)
    ensures
        lucas_certificate(449int, 3, factors),
{
    let n = 449int;
    lemma_prime_2();
    lemma_node_449_tb();
    lemma_power_is(3int, 224nat, n, 448int);
    lemma_prime_7();
    lemma_node_449_ta();
    lemma_power_is(3int, 64nat, n, 324int);
    lemma_power_449_full();
    lemma_power_of_power(3int, 224nat, n, 448int, 2nat, 1);
    assert(224nat * 2nat == 448nat);
    lemma_power_is(3int, 448nat, n, 1);
    lemma_certified_empty(n, 3);
    let s = Seq::<int>::empty();
    lemma_certified_push(n, 3, s, 2int, 224nat);
    let s = s.push(2int);
    assert(product(s) == 2int);
    lemma_certified_push(n, 3, s, 2int, 224nat);
    let s = s.push(2int);
    assert(product(s) == 4int);
    lemma_certified_push(n, 3, s, 2int, 224nat);
    let s = s.push(2int);
    assert(product(s) == 8int);
    lemma_certified_push(n, 3, s, 2int, 224nat);
    let s = s.push(2int);
    assert(product(s) == 16int);
    lemma_certified_push(n, 3, s, 2int, 224nat);
    let s = s.push(2int);
    assert(product(s) == 32int);
    lemma_certified_push(n, 3, s, 2int, 224nat);
    let s = s.push(2int);
    assert(product(s) == 64int);
    lemma_certified_push(n, 3, s, 7int, 64nat);
    let s = s.push(7int);
    assert(product(s) == 448int);
    lemma_certificate(n, 3, s);
    s
}

/// 449 is prime.
pub proof fn lemma_prime_449()
    ensures
        is_prime(449int),
{
    let factors = lemma_certificate_449();
    lemma_lucas(449int, 3, factors);
}

/// A power of a base, computed from the bits of the exponent.
proof fn lemma_power_491_root()
    ensures
        power_is(2int, 7nat, 491int, 128int),
{
    let n = 491int;
    let b = 2int;
    lemma_power_one(b, n);
    let e = 1nat;
    let a = 2int;
    let q = 0int;
    let r = 4int;
    lemma_power_square(b, n, e, a, q, r);
    let e = 2 * e;
    let a = r;
    let q = 0int;
    let r = 8int;
    lemma_power_times(b, n, e, a, q, r);
    let e = e + 1;
    let a = r;
    let q = 0int;
    let r = 64int;
    lemma_power_square(b, n, e, a, q, r);
    let e = 2 * e;
    let a = r;
    let q = 0int;
    let r = 128int;
    lemma_power_times(b, n, e, a, q, r);
    let e = e + 1;
    let a = r;
}

/// A power of a base, computed from the bits of the exponent.
proof fn lemma_power_491_ta()
    ensures
        power_is(128int, 5nat, 491int, 268int),
{
    let n = 491int;
    let b = 128int;
    lemma_power_one(b, n);
    let e = 1nat;
    let a = 128int;
    let q = 33int;
    let r = 181int;
    lemma_power_square(b, n, e, a, q, r);
    let e = 2 * e;
    let a = r;
    let q = 66int;
    let r = 355int;
    lemma_power_square(b, n, e, a, q, r);
    let e = 2 * e;
    let a = r;
    let q = 92int;
    let r = 268int;
    lemma_power_times(b, n, e, a, q, r);
    let e = e + 1;
    let a = r;
}

/// A power of the base of the certificate, as the power of a power.
proof fn lemma_node_491_ta()
    ensures
        power_is(2int, 35nat, 491int, 268int),
{
    lemma_power_491_root();
    lemma_power_491_ta();
    lemma_power_of_power(2int, 7nat, 491int, 128int, 5nat, 268int);
    assert(7nat * 5nat == 35nat);
}

/// A power of a base, computed from the bits of the exponent.
proof fn lemma_power_491_taa()
    ensures
        power_is(268int, 2nat, 491int, 138int),
{
    let n = 491int;
    let b = 268int;
    lemma_power_one(b, n);
    let e = 1nat;
    let a = 268int;
    let q = 146int;
    let r = 138int;
    lemma_power_square(b, n, e, a, q, r);
    let e = 2 * e;
    let a = r;
}

/// A power of the base of the certificate, as the power of a power.
proof fn lemma_node_491_taa()
    ensures
        power_is(2int, 70nat, 491int, 138int),
{
    lemma_node_491_ta();
    lemma_power_491_taa();
    lemma_power_of_power(2int, 35nat, 491int, 268int, 2nat, 138int);
    assert(35nat * 2nat == 70nat);
}

/// A power of a base, computed from the bits of the exponent.
proof fn lemma_power_491_tab()
    ensures
        power_is(268int, 7nat, 491int, 490int),
{
    let n = 491int;
    let b = 268int;
    lemma_power_one(b, n);
    let e = 1nat;
    let a = 268int;
    let q = 146int;
    let r = 138int;
    lemma_power_square(b, n, e, a, q, r);
    let e = 2 * e;
    let a = r;
    let q = 75int;
    let r = 159int;
    lemma_power_times(b, n, e, a, q, r);
    let e = e + 1;
    let a = r;
    let q = 51int;
    let r = 240int;
    lemma_power_square(b, n, e, a, q, r);
    let e = 2 * e;
    let a = r;
    let q = 130int;
    let r = 490int;
    lemma_power_times(b, n, e, a, q, r);
    let e = e + 1;
    let a = r;
}

/// A power of the base of the certificate, as the power of a power.
proof fn lemma_node_491_tab()
    ensures
        power_is(2int, 245nat, 491int, 490int),
{
    lemma_node_491_ta();
    lemma_power_491_tab();
    lemma_power_of_power(2int, 35nat, 491int, 268int, 7nat, 490int);
    assert(35nat * 7nat == 245nat);
}

/// A power of a base, computed from the bits of the exponent.
proof fn lemma_power_491_tb()
    ensures
        power_is(128int, 14nat, 491int, 381int),
{
    let n = 491int;
    let b = 128int;
    lemma_power_one(b, n);
    let e = 1nat;
    let a = 128int;
    let q = 33int;
    let r = 181int;
    lemma_power_square(b, n, e, a, q, r);
    let e = 2 * e;
    let a = r;
    let q = 47int;
    let r = 91int;
    lemma_power_times(b, n, e, a, q, r);
    let e = e + 1;
    let a = r;
    let q = 16int;
    let r = 425int;
    lemma_power_square(b, n, e, a, q, r);
    let e = 2 * e;
    let a = r;
    let q = 110int;
    let r = 390int;
    lemma_power_times(b, n, e, a, q, r);
    let e = e + 1;
    let a = r;
    let q = 309int;
    let r = 381int;
    lemma_power_square(b, n, e, a, q, r);
    let e = 2 * e;
    let a = r;
}

/// A power of the base of the certificate, as the power of a power.
proof fn lemma_node_491_tb()
    ensures
        power_is(2int, 98nat, 491int, 381int),
{
    lemma_power_491_root();
    lemma_power_491_tb();
    lemma_power_of_power(2int, 7nat, 491int, 128int, 14nat, 381int);
    assert(7nat * 14nat == 98nat);
}

/// A power of a base, computed from the bits of the exponent.
proof fn lemma_power_491_full()
    ensures
        power_is(490int, 2nat, 491int, 1int),
{
    let n = 491int;
    let b = 490int;
    lemma_power_one(b, n);
    let e = 1nat;
    let a = 490int;
    let q = 489int;
    let r = 1int;
    lemma_power_square(b, n, e, a, q, r);
    let e = 2 * e;
    let a = r;
}

/// The certificate of 491: base 2, and the prime factors of the
/// number before it.
pub proof fn lemma_certificate_491() -> (factors: Seq<int>)
    ensures
        lucas_certificate(491int, 2, factors),
{
    let n = 491int;
    lemma_prime_2();
    lemma_node_491_tab();
    lemma_power_is(2int, 245nat, n, 490int);
    lemma_prime_5();
    lemma_node_491_tb();
    lemma_power_is(2int, 98nat, n, 381int);
    lemma_prime_7();
    lemma_node_491_taa();
    lemma_power_is(2int, 70nat, n, 138int);
    lemma_power_491_full();
    lemma_power_of_power(2int, 245nat, n, 490int, 2nat, 1);
    assert(245nat * 2nat == 490nat);
    lemma_power_is(2int, 490nat, n, 1);
    lemma_certified_empty(n, 2);
    let s = Seq::<int>::empty();
    lemma_certified_push(n, 2, s, 2int, 245nat);
    let s = s.push(2int);
    assert(product(s) == 2int);
    lemma_certified_push(n, 2, s, 5int, 98nat);
    let s = s.push(5int);
    assert(product(s) == 10int);
    lemma_certified_push(n, 2, s, 7int, 70nat);
    let s = s.push(7int);
    assert(product(s) == 70int);
    lemma_certified_push(n, 2, s, 7int, 70nat);
    let s = s.push(7int);
    assert(product(s) == 490int);
    lemma_certificate(n, 2, s);
    s
}

/// 491 is prime.
pub proof fn lemma_prime_491()
    ensures
        is_prime(491int),
{
    let factors = lemma_certificate_491();
    lemma_lucas(491int, 2, factors);
}

/// A power of a base, computed from the bits of the exponent.
proof fn lemma_power_661_root()
    ensures
        power_is(2int, 2nat, 661int, 4int),
{
    let n = 661int;
    let b = 2int;
    lemma_power_one(b, n);
    let e = 1nat;
    let a = 2int;
    let q = 0int;
    let r = 4int;
    lemma_power_square(b, n, e, a, q, r);
    let e = 2 * e;
    let a = r;
}

/// A power of a base, computed from the bits of the exponent.
proof fn lemma_power_661_ta()
    ensures
        power_is(4int, 15nat, 661int, 204int),
{
    let n = 661int;
    let b = 4int;
    lemma_power_one(b, n);
    let e = 1nat;
    let a = 4int;
    let q = 0int;
    let r = 16int;
    lemma_power_square(b, n, e, a, q, r);
    let e = 2 * e;
    let a = r;
    let q = 0int;
    let r = 64int;
    lemma_power_times(b, n, e, a, q, r);
    let e = e + 1;
    let a = r;
    let q = 6int;
    let r = 130int;
    lemma_power_square(b, n, e, a, q, r);
    let e = 2 * e;
    let a = r;
    let q = 0int;
    let r = 520int;
    lemma_power_times(b, n, e, a, q, r);
    let e = e + 1;
    let a = r;
    let q = 409int;
    let r = 51int;
    lemma_power_square(b, n, e, a, q, r);
    let e = 2 * e;
    let a = r;
    let q = 0int;
    let r = 204int;
    lemma_power_times(b, n, e, a, q, r);
    let e = e + 1;
    let a = r;
}

/// A power of the base of the certificate, as the power of a power.
proof fn lemma_node_661_ta()
    ensures
        power_is(2int, 30nat, 661int, 204int),
{
    lemma_power_661_root();
    lemma_power_661_ta();
    lemma_power_of_power(2int, 2nat, 661int, 4int, 15nat, 204int);
    assert(2nat * 15nat == 30nat);
}

/// A power of a base, computed from the bits of the exponent.
proof fn lemma_power_661_taa()
    ensures
        power_is(204int, 2nat, 661int, 634int),
{
    let n = 661int;
    let b = 204int;
    lemma_power_one(b, n);
    let e = 1nat;
    let a = 204int;
    let q = 62int;
    let r = 634int;
    lemma_power_square(b, n, e, a, q, r);
    let e = 2 * e;
    let a = r;
}

/// A power of the base of the certificate, as the power of a power.
proof fn lemma_node_661_taa()
    ensures
        power_is(2int, 60nat, 661int, 634int),
{
    lemma_node_661_ta();
    lemma_power_661_taa();
    lemma_power_of_power(2int, 30nat, 661int, 204int, 2nat, 634int);
    assert(30nat * 2nat == 60nat);
}

/// A power of a base, computed from the bits of the exponent.
proof fn lemma_power_661_tab()
    ensures
        power_is(204int, 11nat, 661int, 660int),
{
    let n = 661int;
    let b = 204int;
    lemma_power_one(b, n);
    let e = 1nat;
    let a = 204int;
    let q = 62int;
    let r = 634int;
    lemma_power_square(b, n, e, a, q, r);
    let e = 2 * e;
    let a = r;
    let q = 608int;
    let r = 68int;
    lemma_power_square(b, n, e, a, q, r);
    let e = 2 * e;
    let a = r;
    let q = 20int;
    let r = 652int;
    lemma_power_times(b, n, e, a, q, r);
    let e = e + 1;
    let a = r;
    let q = 643int;
    let r = 81int;
    lemma_power_square(b, n, e, a, q, r);
    let e = 2 * e;
    let a = r;
    let q = 24int;
    let r = 660int;
    lemma_power_times(b, n, e, a, q, r);
    let e = e + 1;
    let a = r;
}

/// A power of the base of the certificate, as the power of a power.
proof fn lemma_node_661_tab()
    ensures
        power_is(2int, 330nat, 661int, 660int),
{
    lemma_node_661_ta();
    lemma_power_661_tab();
    lemma_power_of_power(2int, 30nat, 661int, 204int, 11nat, 660int);
    assert(30nat * 11nat == 330nat);
}

/// A power of a base, computed from the bits of the exponent.
proof fn lemma_power_661_tb()
    ensures
        power_is(4int, 22nat, 661int, 320int),
{
    let n = 661int;
    let b = 4int;
    lemma_power_one(b, n);
    let e = 1nat;
    let a = 4int;
    let q = 0int;
    let r = 16int;
    lemma_power_square(b, n, e, a, q, r);
    let e = 2 * e;
    let a = r;
    let q = 0int;
    let r = 256int;
    lemma_power_square(b, n, e, a, q, r);
    let e = 2 * e;
    let a = r;
    let q = 1int;
    let r = 363int;
    lemma_power_times(b, n, e, a, q, r);
    let e = e + 1;
    let a = r;
    let q = 199int;
    let r = 230int;
    lemma_power_square(b, n, e, a, q, r);
    let e = 2 * e;
    let a = r;
    let q = 1int;
    let r = 259int;
    lemma_power_times(b, n, e, a, q, r);
    let e = e + 1;
    let a = r;
    let q = 101int;
    let r = 320int;
    lemma_power_square(b, n, e, a, q, r);
    let e = 2 * e;
    let a = r;
}

/// A power of the base of the certificate, as the power of a power.
proof fn lemma_node_661_tb()
    ensures
        power_is(2int, 44nat, 661int, 320int),
{
    lemma_power_661_root();
    lemma_power_661_tb();
    lemma_power_of_power(2int, 2nat, 661int, 4int, 22nat, 320int);
    assert(2nat * 22nat == 44nat);
}

/// A power of a base, computed from the bits of the exponent.
proof fn lemma_power_661_tba()
    ensures
        power_is(320int, 3nat, 661int, 247int),
{
    let n = 661int;
    let b = 320int;
    lemma_power_one(b, n);
    let e = 1nat;
    let a = 320int;
    let q = 154int;
    let r = 606int;
    lemma_power_square(b, n, e, a, q, r);
    let e = 2 * e;
    let a = r;
    let q = 293int;
    let r = 247int;
    lemma_power_times(b, n, e, a, q, r);
    let e = e + 1;
    let a = r;
}

/// A power of the base of the certificate, as the power of a power.
proof fn lemma_node_661_tba()
    ensures
        power_is(2int, 132nat, 661int, 247int),
{
    lemma_node_661_tb();
    lemma_power_661_tba();
    lemma_power_of_power(2int, 44nat, 661int, 320int, 3nat, 247int);
    assert(44nat * 3nat == 132nat);
}

/// A power of a base, computed from the bits of the exponent.
proof fn lemma_power_661_tbb()
    ensures
        power_is(320int, 5nat, 661int, 296int),
{
    let n = 661int;
    let b = 320int;
    lemma_power_one(b, n);
    let e = 1nat;
    let a = 320int;
    let q = 154int;
    let r = 606int;
    lemma_power_square(b, n, e, a, q, r);
    let e = 2 * e;
    let a = r;
    let q = 555int;
    let r = 381int;
    lemma_power_square(b, n, e, a, q, r);
    let e = 2 * e;
    let a = r;
    let q = 184int;
    let r = 296int;
    lemma_power_times(b, n, e, a, q, r);
    let e = e + 1;
    let a = r;
}

/// A power of the base of the certificate, as the power of a power.
proof fn lemma_node_661_tbb()
    ensures
        power_is(2int, 220nat, 661int, 296int),
{
    lemma_node_661_tb();
    lemma_power_661_tbb();
    lemma_power_of_power(2int, 44nat, 661int, 320int, 5nat, 296int);
    assert(44nat * 5nat == 220nat);
}

/// A power of a base, computed from the bits of the exponent.
proof fn lemma_power_661_full()
    ensures
        power_is(660int, 2nat, 661int, 1int),
{
    let n = 661int;
    let b = 660int;
    lemma_power_one(b, n);
    let e = 1nat;
    let a = 660int;
    let q = 659int;
    let r = 1int;
    lemma_power_square(b, n, e, a, q, r);
    let e = 2 * e;
    let a = r;
}

/// The certificate of 661: base 2, and the prime factors of the
/// number before it.
pub proof fn lemma_certificate_661() -> (factors: Seq<int>)
    ensures
        lucas_certificate(661int, 2, factors),
{
    let n = 661int;
    lemma_prime_2();
    lemma_node_661_tab();
    lemma_power_is(2int, 330nat, n, 660int);
    lemma_prime_3();
    lemma_node_661_tbb();
    lemma_power_is(2int, 220nat, n, 296int);
    lemma_prime_5();
    lemma_node_661_tba();
    lemma_power_is(2int, 132nat, n, 247int);
    lemma_prime_11();
    lemma_node_661_taa();
    lemma_power_is(2int, 60nat, n, 634int);
    lemma_power_661_full();
    lemma_power_of_power(2int, 330nat, n, 660int, 2nat, 1);
    assert(330nat * 2nat == 660nat);
    lemma_power_is(2int, 660nat, n, 1);
    lemma_certified_empty(n, 2);
    let s = Seq::<int>::empty();
    lemma_certified_push(n, 2, s, 2int, 330nat);
    let s = s.push(2int);
    assert(product(s) == 2int);
    lemma_certified_push(n, 2, s, 2int, 330nat);
    let s = s.push(2int);
    assert(product(s) == 4int);
    lemma_certified_push(n, 2, s, 3int, 220nat);
    let s = s.push(3int);
    assert(product(s) == 12int);
    lemma_certified_push(n, 2, s, 5int, 132nat);
    let s = s.push(5int);
    assert(product(s) == 60int);
    lemma_certified_push(n, 2, s, 11int, 60nat);
    let s = s.push(11int);
    assert(product(s) == 660int);
    lemma_certificate(n, 2, s);
    s
}

/// 661 is prime.
pub proof fn lemma_prime_661()
    ensures
        is_prime(661int),
{
    let factors = lemma_certificate_661();
    lemma_lucas(661int, 2, factors);
}

/// A power of a base, computed from the bits of the exponent.
proof fn lemma_power_823_root()
    ensures
        power_is(3int, 1nat, 823int, 3int),
{
    let n = 823int;
    let b = 3int;
    lemma_power_one(b, n);
    let e = 1nat;
    let a = 3int;
}

/// A power of a base, computed from the bits of the exponent.
proof fn lemma_power_823_ta()
    ensures
        power_is(3int, 6nat, 823int, 729int),
{
    let n = 823int;
    let b = 3int;
    lemma_power_one(b, n);
    let e = 1nat;
    let a = 3int;
    let q = 0int;
    let r = 9int;
    lemma_power_square(b, n, e, a, q, r);
    let e = 2 * e;
    let a = r;
    let q = 0int;
    let r = 27int;
    lemma_power_times(b, n, e, a, q, r);
    let e = e + 1;
    let a = r;
    let q = 0int;
    let r = 729int;
    lemma_power_square(b, n, e, a, q, r);
    let e = 2 * e;
    let a = r;
}

/// A power of the base of the certificate, as the power of a power.
proof fn lemma_node_823_ta()
    ensures
        power_is(3int, 6nat, 823int, 729int),
{
    lemma_power_823_root();
    lemma_power_823_ta();
    lemma_power_of_power(3int, 1nat, 823int, 3int, 6nat, 729int);
    assert(1nat * 6nat == 6nat);
}

/// A power of a base, computed from the bits of the exponent.
proof fn lemma_power_823_tb()
    ensures
        power_is(3int, 137nat, 823int, 649int),
{
    let n = 823int;
    let b = 3int;
    lemma_power_one(b, n);
    let e = 1nat;
    let a = 3int;
    let q = 0int;
    let r = 9int;
    lemma_power_square(b, n, e, a, q, r);
    let e = 2 * e;
    let a = r;
    let q = 0int;
    let r = 81int;
    lemma_power_square(b, n, e, a, q, r);
    let e = 2 * e;
    let a = r;
    let q = 7int;
    let r = 800int;
    lemma_power_square(b, n, e, a, q, r);
    let e = 2 * e;
    let a = r;
    let q = 777int;
    let r = 529int;
    lemma_power_square(b, n, e, a, q, r);
    let e = 2 * e;
    let a = r;
    let q = 1int;
    let r = 764int;
    lemma_power_times(b, n, e, a, q, r);
    let e = e + 1;
    let a = r;
    let q = 709int;
    let r = 189int;
    lemma_power_square(b, n, e, a, q, r);
    let e = 2 * e;
    let a = r;
    let q = 43int;
    let r = 332int;
    lemma_power_square(b, n, e, a, q, r);
    let e = 2 * e;
    let a = r;
    let q = 133int;
    let r = 765int;
    lemma_power_square(b, n, e, a, q, r);
    let e = 2 * e;
    let a = r;
    let q = 2int;
    let r = 649int;
    lemma_power_times(b, n, e, a, q, r);
    let e = e + 1;
    let a = r;
}

/// A power of the base of the certificate, as the power of a power.
proof fn lemma_node_823_tb()
    ensures
        power_is(3int, 137nat, 823int, 649int),
{
    lemma_power_823_root();
    lemma_power_823_tb();
    lemma_power_of_power(3int, 1nat, 823int, 3int, 137nat, 649int);
    assert(1nat * 137nat == 137nat);
}

/// A power of a base, computed from the bits of the exponent.
proof fn lemma_power_823_tba()
    ensures
        power_is(649int, 2nat, 823int, 648int),
{
    let n = 823int;
    let b = 649int;
    lemma_power_one(b, n);
    let e = 1nat;
    let a = 649int;
    let q = 511int;
    let r = 648int;
    lemma_power_square(b, n, e, a, q, r);
    let e = 2 * e;
    let a = r;
}

/// A power of the base of the certificate, as the power of a power.
proof fn lemma_node_823_tba()
    ensures
        power_is(3int, 274nat, 823int, 648int),
{
    lemma_node_823_tb();
    lemma_power_823_tba();
    lemma_power_of_power(3int, 137nat, 823int, 649int, 2nat, 648int);
    assert(137nat * 2nat == 274nat);
}

/// A power of a base, computed from the bits of the exponent.
proof fn lemma_power_823_tbb()
    ensures
        power_is(649int, 3nat, 823int, 822int),
{
    let n = 823int;
    let b = 649int;
    lemma_power_one(b, n);
    let e = 1nat;
    let a = 649int;
    let q = 511int;
    let r = 648int;
    lemma_power_square(b, n, e, a, q, r);
    let e = 2 * e;
    let a = r;
    let q = 510int;
    let r = 822int;
    lemma_power_times(b, n, e, a, q, r);
    let e = e + 1;
    let a = r;
}

/// A power of the base of the certificate, as the power of a power.
proof fn lemma_node_823_tbb()
    ensures
        power_is(3int, 411nat, 823int, 822int),
{
    lemma_node_823_tb();
    lemma_power_823_tbb();
    lemma_power_of_power(3int, 137nat, 823int, 649int, 3nat, 822int);
    assert(137nat * 3nat == 411nat);
}

/// A power of a base, computed from the bits of the exponent.
proof fn lemma_power_823_full()
    ensures
        power_is(822int, 2nat, 823int, 1int),
{
    let n = 823int;
    let b = 822int;
    lemma_power_one(b, n);
    let e = 1nat;
    let a = 822int;
    let q = 821int;
    let r = 1int;
    lemma_power_square(b, n, e, a, q, r);
    let e = 2 * e;
    let a = r;
}

/// The certificate of 823: base 3, and the prime factors of the
/// number before it.
pub proof fn lemma_certificate_823() -> (factors: Seq<int>)
    ensures
        lucas_certificate(823int, 3, factors),
{
    let n = 823int;
    lemma_prime_2();
    lemma_node_823_tbb();
    lemma_power_is(3int, 411nat, n, 822int);
    lemma_prime_3();
    lemma_node_823_tba();
    lemma_power_is(3int, 274nat, n, 648int);
    lemma_prime_137();
    lemma_node_823_ta();
    lemma_power_is(3int, 6nat, n, 729int);
    lemma_power_823_full();
    lemma_power_of_power(3int, 411nat, n, 822int, 2nat, 1);
    assert(411nat * 2nat == 822nat);
    lemma_power_is(3int, 822nat, n, 1);
    lemma_certified_empty(n, 3);
    let s = Seq::<int>::empty();
    lemma_certified_push(n, 3, s, 2int, 411nat);
    let s = s.push(2int);
    assert(product(s) == 2int);
    lemma_certified_push(n, 3, s, 3int, 274nat);
    let s = s.push(3int);
    assert(product(s) == 6int);
    lemma_certified_push(n, 3, s, 137int, 6nat);
    let s = s.push(137int);
    assert(product(s) == 822int);
    lemma_certificate(n, 3, s);
    s
}

/// 823 is prime.
pub proof fn lemma_prime_823()
    ensures
        is_prime(823int),
{
    let factors = lemma_certificate_823();
    lemma_lucas(823int, 3, factors);
}

/// A power of a base, computed from the bits of the exponent.
proof fn lemma_power_853_root()
    ensures
        power_is(2int, 2nat, 853int, 4int),
{
    let n = 853int;
    let b = 2int;
    lemma_power_one(b, n);
    let e = 1nat;
    let a = 2int;
    let q = 0int;
    let r = 4int;
    lemma_power_square(b, n, e, a, q, r);
    let e = 2 * e;
    let a = r;
}

/// A power of a base, computed from the bits of the exponent.
proof fn lemma_power_853_ta()
    ensures
        power_is(4int, 6nat, 853int, 684int),
{
    let n = 853int;
    let b = 4int;
    lemma_power_one(b, n);
    let e = 1nat;
    let a = 4int;
    let q = 0int;
    let r = 16int;
    lemma_power_square(b, n, e, a, q, r);
    let e = 2 * e;
    let a = r;
    let q = 0int;
    let r = 64int;
    lemma_power_times(b, n, e, a, q, r);
    let e = e + 1;
    let a = r;
    let q = 4int;
    let r = 684int;
    lemma_power_square(b, n, e, a, q, r);
    let e = 2 * e;
    let a = r;
}

/// A power of the base of the certificate, as the power of a power.
proof fn lemma_node_853_ta()
    ensures
        power_is(2int, 12nat, 853int, 684int),
{
    lemma_power_853_root();
    lemma_power_853_ta();
    lemma_power_of_power(2int, 2nat, 853int, 4int, 6nat, 684int);
    assert(2nat * 6nat == 12nat);
}

/// A power of a base, computed from the bits of the exponent.
proof fn lemma_power_853_tb()
    ensures
        power_is(4int, 71nat, 853int, 633int),
{
    let n = 853int;
    let b = 4int;
    lemma_power_one(b, n);
    let e = 1nat;
    let a = 4int;
    let q = 0int;
    let r = 16int;
    lemma_power_square(b, n, e, a, q, r);
    let e = 2 * e;
    let a = r;
    let q = 0int;
    let r = 256int;
    lemma_power_square(b, n, e, a, q, r);
    let e = 2 * e;
    let a = r;
    let q = 76int;
    let r = 708int;
    lemma_power_square(b, n, e, a, q, r);
    let e = 2 * e;
    let a = r;
    let q = 587int;
    let r = 553int;
    lemma_power_square(b, n, e, a, q, r);
    let e = 2 * e;
    let a = r;
    let q = 2int;
    let r = 506int;
    lemma_power_times(b, n, e, a, q, r);
    let e = e + 1;
    let a = r;
    let q = 300int;
    let r = 136int;
    lemma_power_square(b, n, e, a, q, r);
    let e = 2 * e;
    let a = r;
    let q = 0int;
    let r = 544int;
    lemma_power_times(b, n, e, a, q, r);
    let e = e + 1;
    let a = r;
    let q = 346int;
    let r = 798int;
    lemma_power_square(b, n, e, a, q, r);
    let e = 2 * e;
    let a = r;
    let q = 3int;
    let r = 633int;
    lemma_power_times(b, n, e, a, q, r);
    let e = e + 1;
    let a = r;
}

/// A power of the base of the certificate, as the power of a power.
proof fn lemma_node_853_tb()
    ensures
        power_is(2int, 142nat, 853int, 633int),
{
    lemma_power_853_root();
    lemma_power_853_tb();
    lemma_power_of_power(2int, 2nat, 853int, 4int, 71nat, 633int);
    assert(2nat * 71nat == 142nat);
}

/// A power of a base, computed from the bits of the exponent.
proof fn lemma_power_853_tba()
    ensures
        power_is(633int, 2nat, 853int, 632int),
{
    let n = 853int;
    let b = 633int;
    lemma_power_one(b, n);
    let e = 1nat;
    let a = 633int;
    let q = 469int;
    let r = 632int;
    lemma_power_square(b, n, e, a, q, r);
    let e = 2 * e;
    let a = r;
}

/// A power of the base of the certificate, as the power of a power.
proof fn lemma_node_853_tba()
    ensures
        power_is(2int, 284nat, 853int, 632int),
{
    lemma_node_853_tb();
    lemma_power_853_tba();
    lemma_power_of_power(2int, 142nat, 853int, 633int, 2nat, 632int);
    assert(142nat * 2nat == 284nat);
}

/// A power of a base, computed from the bits of the exponent.
proof fn lemma_power_853_tbb()
    ensures
        power_is(633int, 3nat, 853int, 852int),
{
    let n = 853int;
    let b = 633int;
    lemma_power_one(b, n);
    let e = 1nat;
    let a = 633int;
    let q = 469int;
    let r = 632int;
    lemma_power_square(b, n, e, a, q, r);
    let e = 2 * e;
    let a = r;
    let q = 468int;
    let r = 852int;
    lemma_power_times(b, n, e, a, q, r);
    let e = e + 1;
    let a = r;
}

/// A power of the base of the certificate, as the power of a power.
proof fn lemma_node_853_tbb()
    ensures
        power_is(2int, 426nat, 853int, 852int),
{
    lemma_node_853_tb();
    lemma_power_853_tbb();
    lemma_power_of_power(2int, 142nat, 853int, 633int, 3nat, 852int);
    assert(142nat * 3nat == 426nat);
}

/// A power of a base, computed from the bits of the exponent.
proof fn lemma_power_853_full()
    ensures
        power_is(852int, 2nat, 853int, 1int),
{
    let n = 853int;
    let b = 852int;
    lemma_power_one(b, n);
    let e = 1nat;
    let a = 852int;
    let q = 851int;
    let r = 1int;
    lemma_power_square(b, n, e, a, q, r);
    let e = 2 * e;
    let a = r;
}

/// The certificate of 853: base 2, and the prime factors of the
/// number before it.
pub proof fn lemma_certificate_853() -> (factors: Seq<int>)
    ensures
        lucas_certificate(853int, 2, factors),
{
    let n = 853int;
    lemma_prime_2();
    lemma_node_853_tbb();
    lemma_power_is(2int, 426nat, n, 852int);
    lemma_prime_3();
    lemma_node_853_tba();
    lemma_power_is(2int, 284nat, n, 632int);
    lemma_prime_71();
    lemma_node_853_ta();
    lemma_power_is(2int, 12nat, n, 684int);
    lemma_power_853_full();
    lemma_power_of_power(2int, 426nat, n, 852int, 2nat, 1);
    assert(426nat * 2nat == 852nat);
    lemma_power_is(2int, 852nat, n, 1);
    lemma_certified_empty(n, 2);
    let s = Seq::<int>::empty();
    lemma_certified_push(n, 2, s, 2int, 426nat);
    let s = s.push(2int);
    assert(product(s) == 2int);
    lemma_certified_push(n, 2, s, 2int, 426nat);
    let s = s.push(2int);
    assert(product(s) == 4int);
    lemma_certified_push(n, 2, s, 3int, 284nat);
    let s = s.push(3int);
    assert(product(s) == 12int);
    lemma_certified_push(n, 2, s, 71int, 12nat);
    let s = s.push(71int);
    assert(product(s) == 852int);
    lemma_certificate(n, 2, s);
    s
}

/// 853 is prime.
pub proof fn lemma_prime_853()
    ensures
        is_prime(853int),
{
    let factors = lemma_certificate_853();
    lemma_lucas(853int, 2, factors);
}

/// A power of a base, computed from the bits of the exponent.
proof fn lemma_power_983_root()
    ensures
        power_is(5int, 1nat, 983int, 5int),
{
    let n = 983int;
    let b = 5int;
    lemma_power_one(b, n);
    let e = 1nat;
    let a = 5int;
}

/// A power of a base, computed from the bits of the exponent.
proof fn lemma_power_983_ta()
    ensures
        power_is(5int, 2nat, 983int, 25int),
{
    let n = 983int;
    let b = 5int;
    lemma_power_one(b, n);
    let e = 1nat;
    let a = 5int;
    let q = 0int;
    let r = 25int;
    lemma_power_square(b, n, e, a, q, r);
    let e = 2 * e;
    let a = r;
}

/// A power of the base of the certificate, as the power of a power.
proof fn lemma_node_983_ta()
    ensures
        power_is(5int, 2nat, 983int, 25int),
{
    lemma_power_983_root();
    lemma_power_983_ta();
    lemma_power_of_power(5int, 1nat, 983int, 5int, 2nat, 25int);
    assert(1nat * 2nat == 2nat);
}

/// A power of a base, computed from the bits of the exponent.
proof fn lemma_power_983_tb()
    ensures
        power_is(5int, 491nat, 983int, 982int),
{
    let n = 983int;
    let b = 5int;
    lemma_power_one(b, n);
    let e = 1nat;
    let a = 5int;
    let q = 0int;
    let r = 25int;
    lemma_power_square(b, n, e, a, q, r);
    let e = 2 * e;
    let a = r;
    let q = 0int;
    let r = 125int;
    lemma_power_times(b, n, e, a, q, r);
    let e = e + 1;
    let a = r;
    let q = 15int;
    let r = 880int;
    lemma_power_square(b, n, e, a, q, r);
    let e = 2 * e;
    let a = r;
    let q = 4int;
    let r = 468int;
    lemma_power_times(b, n, e, a, q, r);
    let e = e + 1;
    let a = r;
    let q = 222int;
    let r = 798int;
    lemma_power_square(b, n, e, a, q, r);
    let e = 2 * e;
    let a = r;
    let q = 4int;
    let r = 58int;
    lemma_power_times(b, n, e, a, q, r);
    let e = e + 1;
    let a = r;
    let q = 3int;
    let r = 415int;
    lemma_power_square(b, n, e, a, q, r);
    let e = 2 * e;
    let a = r;
    let q = 175int;
    let r = 200int;
    lemma_power_square(b, n, e, a, q, r);
    let e = 2 * e;
    let a = r;
    let q = 1int;
    let r = 17int;
    lemma_power_times(b, n, e, a, q, r);
    let e = e + 1;
    let a = r;
    let q = 0int;
    let r = 289int;
    lemma_power_square(b, n, e, a, q, r);
    let e = 2 * e;
    let a = r;
    let q = 84int;
    let r = 949int;
    lemma_power_square(b, n, e, a, q, r);
    let e = 2 * e;
    let a = r;
    let q = 4int;
    let r = 813int;
    lemma_power_times(b, n, e, a, q, r);
    let e = e + 1;
    let a = r;
    let q = 672int;
    let r = 393int;
    lemma_power_square(b, n, e, a, q, r);
    let e = 2 * e;
    let a = r;
    let q = 1int;
    let r = 982int;
    lemma_power_times(b, n, e, a, q, r);
    let e = e + 1;
    let a = r;
}

/// A power of the base of the certificate, as the power of a power.
proof fn lemma_node_983_tb()
    ensures
        power_is(5int, 491nat, 983int, 982int),
{
    lemma_power_983_root();
    lemma_power_983_tb();
    lemma_power_of_power(5int, 1nat, 983int, 5int, 491nat, 982int);
    assert(1nat * 491nat == 491nat);
}

/// A power of a base, computed from the bits of the exponent.
proof fn lemma_power_983_full()
    ensures
        power_is(982int, 2nat, 983int, 1int),
{
    let n = 983int;
    let b = 982int;
    lemma_power_one(b, n);
    let e = 1nat;
    let a = 982int;
    let q = 981int;
    let r = 1int;
    lemma_power_square(b, n, e, a, q, r);
    let e = 2 * e;
    let a = r;
}

/// The certificate of 983: base 5, and the prime factors of the
/// number before it.
pub proof fn lemma_certificate_983() -> (factors: Seq<int>)
    ensures
        lucas_certificate(983int, 5, factors),
{
    let n = 983int;
    lemma_prime_2();
    lemma_node_983_tb();
    lemma_power_is(5int, 491nat, n, 982int);
    lemma_prime_491();
    lemma_node_983_ta();
    lemma_power_is(5int, 2nat, n, 25int);
    lemma_power_983_full();
    lemma_power_of_power(5int, 491nat, n, 982int, 2nat, 1);
    assert(491nat * 2nat == 982nat);
    lemma_power_is(5int, 982nat, n, 1);
    lemma_certified_empty(n, 5);
    let s = Seq::<int>::empty();
    lemma_certified_push(n, 5, s, 2int, 491nat);
    let s = s.push(2int);
    assert(product(s) == 2int);
    lemma_certified_push(n, 5, s, 491int, 2nat);
    let s = s.push(491int);
    assert(product(s) == 982int);
    lemma_certificate(n, 5, s);
    s
}

/// 983 is prime.
pub proof fn lemma_prime_983()
    ensures
        is_prime(983int),
{
    let factors = lemma_certificate_983();
    lemma_lucas(983int, 5, factors);
}

/// A power of a base, computed from the bits of the exponent.
proof fn lemma_power_1637_root()
    ensures
        power_is(2int, 2nat, 1637int, 4int),
{
    let n = 1637int;
    let b = 2int;
    lemma_power_one(b, n);
    let e = 1nat;
    let a = 2int;
    let q = 0int;
    let r = 4int;
    lemma_power_square(b, n, e, a, q, r);
    let e = 2 * e;
    let a = r;
}

/// A power of a base, computed from the bits of the exponent.
proof fn lemma_power_1637_ta()
    ensures
        power_is(4int, 2nat, 1637int, 16int),
{
    let n = 1637int;
    let b = 4int;
    lemma_power_one(b, n);
    let e = 1nat;
    let a = 4int;
    let q = 0int;
    let r = 16int;
    lemma_power_square(b, n, e, a, q, r);
    let e = 2 * e;
    let a = r;
}

/// A power of the base of the certificate, as the power of a power.
proof fn lemma_node_1637_ta()
    ensures
        power_is(2int, 4nat, 1637int, 16int),
{
    lemma_power_1637_root();
    lemma_power_1637_ta();
    lemma_power_of_power(2int, 2nat, 1637int, 4int, 2nat, 16int);
    assert(2nat * 2nat == 4nat);
}

/// A power of a base, computed from the bits of the exponent.
proof fn lemma_power_1637_tb()
    ensures
        power_is(4int, 409nat, 1637int, 1636int),
{
    let n = 1637int;
    let b = 4int;
    lemma_power_one(b, n);
    let e = 1nat;
    let a = 4int;
    let q = 0int;
    let r = 16int;
    lemma_power_square(b, n, e, a, q, r);
    let e = 2 * e;
    let a = r;
    let q = 0int;
    let r = 64int;
    lemma_power_times(b, n, e, a, q, r);
    let e = e + 1;
    let a = r;
    let q = 2int;
    let r = 822int;
    lemma_power_square(b, n, e, a, q, r);
    let e = 2 * e;
    let a = r;
    let q = 412int;
    let r = 1240int;
    lemma_power_square(b, n, e, a, q, r);
    let e = 2 * e;
    let a = r;
    let q = 939int;
    let r = 457int;
    lemma_power_square(b, n, e, a, q, r);
    let e = 2 * e;
    let a = r;
    let q = 1int;
    let r = 191int;
    lemma_power_times(b, n, e, a, q, r);
    let e = e + 1;
    let a = r;
    let q = 22int;
    let r = 467int;
    lemma_power_square(b, n, e, a, q, r);
    let e = 2 * e;
    let a = r;
    let q = 1int;
    let r = 231int;
    lemma_power_times(b, n, e, a, q, r);
    let e = e + 1;
    let a = r;
    let q = 32int;
    let r = 977int;
    lemma_power_square(b, n, e, a, q, r);
    let e = 2 * e;
    let a = r;
    let q = 583int;
    let r = 158int;
    lemma_power_square(b, n, e, a, q, r);
    let e = 2 * e;
    let a = r;
    let q = 15int;
    let r = 409int;
    lemma_power_square(b, n, e, a, q, r);
    let e = 2 * e;
    let a = r;
    let q = 0int;
    let r = 1636int;
    lemma_power_times(b, n, e, a, q, r);
    let e = e + 1;
    let a = r;
}

/// A power of the base of the certificate, as the power of a power.
proof fn lemma_node_1637_tb()
    ensures
        power_is(2int, 818nat, 1637int, 1636int),
{
    lemma_power_1637_root();
    lemma_power_1637_tb();
    lemma_power_of_power(2int, 2nat, 1637int, 4int, 409nat, 1636int);
    assert(2nat * 409nat == 818nat);
}

/// A power of a base, computed from the bits of the exponent.
proof fn lemma_power_1637_full()
    ensures
        power_is(1636int, 2nat, 1637int, 1int),
{
    let n = 1637int;
    let b = 1636int;
    lemma_power_one(b, n);
    let e = 1nat;
    let a = 1636int;
    let q = 1635int;
    let r = 1int;
    lemma_power_square(b, n, e, a, q, r);
    let e = 2 * e;
    let a = r;
}

/// The certificate of 1637: base 2, and the prime factors of the
/// number before it.
pub proof fn lemma_certificate_1637() -> (factors: Seq<int>)
    ensures
        lucas_certificate(1637int, 2, factors),
{
    let n = 1637int;
    lemma_prime_2();
    lemma_node_1637_tb();
    lemma_power_is(2int, 818nat, n, 1636int);
    lemma_prime_409();
    lemma_node_1637_ta();
    lemma_power_is(2int, 4nat, n, 16int);
    lemma_power_1637_full();
    lemma_power_of_power(2int, 818nat, n, 1636int, 2nat, 1);
    assert(818nat * 2nat == 1636nat);
    lemma_power_is(2int, 1636nat, n, 1);
    lemma_certified_empty(n, 2);
    let s = Seq::<int>::empty();
    lemma_certified_push(n, 2, s, 2int, 818nat);
    let s = s.push(2int);
    assert(product(s) == 2int);
    lemma_certified_push(n, 2, s, 2int, 818nat);
    let s = s.push(2int);
    assert(product(s) == 4int);
    lemma_certified_push(n, 2, s, 409int, 4nat);
    let s = s.push(409int);
    assert(product(s) == 1636int);
    lemma_certificate(n, 2, s);
    s
}

/// 1637 is prime.
pub proof fn lemma_prime_1637()
    ensures
        is_prime(1637int),
{
    let factors = lemma_certificate_1637();
    lemma_lucas(1637int, 2, factors);
}

/// A power of a base, computed from the bits of the exponent.
proof fn lemma_power_3691_root()
    ensures
        power_is(2int, 3nat, 3691int, 8int),
{
    let n = 3691int;
    let b = 2int;
    lemma_power_one(b, n);
    let e = 1nat;
    let a = 2int;
    let q = 0int;
    let r = 4int;
    lemma_power_square(b, n, e, a, q, r);
    let e = 2 * e;
    let a = r;
    let q = 0int;
    let r = 8int;
    lemma_power_times(b, n, e, a, q, r);
    let e = e + 1;
    let a = r;
}

/// A power of a base, computed from the bits of the exponent.
proof fn lemma_power_3691_ta()
    ensures
        power_is(8int, 30nat, 3691int, 1752int),
{
    let n = 3691int;
    let b = 8int;
    lemma_power_one(b, n);
    let e = 1nat;
    let a = 8int;
    let q = 0int;
    let r = 64int;
    lemma_power_square(b, n, e, a, q, r);
    let e = 2 * e;
    let a = r;
    let q = 0int;
    let r = 512int;
    lemma_power_times(b, n, e, a, q, r);
    let e = e + 1;
    let a = r;
    let q = 71int;
    let r = 83int;
    lemma_power_square(b, n, e, a, q, r);
    let e = 2 * e;
    let a = r;
    let q = 0int;
    let r = 664int;
    lemma_power_times(b, n, e, a, q, r);
    let e = e + 1;
    let a = r;
    let q = 119int;
    let r = 1667int;
    lemma_power_square(b, n, e, a, q, r);
    let e = 2 * e;
    let a = r;
    let q = 3int;
    let r = 2263int;
    lemma_power_times(b, n, e, a, q, r);
    let e = e + 1;
    let a = r;
    let q = 1387int;
    let r = 1752int;
    lemma_power_square(b, n, e, a, q, r);
    let e = 2 * e;
    let a = r;
}

/// A power of the base of the certificate, as the power of a power.
proof fn lemma_node_3691_ta()
    ensures
        power_is(2int, 90nat, 3691int, 1752int),
{
    lemma_power_3691_root();
    lemma_power_3691_ta();
    lemma_power_of_power(2int, 3nat, 3691int, 8int, 30nat, 1752int);
    assert(3nat * 30nat == 90nat);
}

/// A power of a base, computed from the bits of the exponent.
proof fn lemma_power_3691_tb()
    ensures
        power_is(8int, 41nat, 3691int, 2763int),
{
    let n = 3691int;
    let b = 8int;
    lemma_power_one(b, n);
    let e = 1nat;
    let a = 8int;
    let q = 0int;
    let r = 64int;
    lemma_power_square(b, n, e, a, q, r);
    let e = 2 * e;
    let a = r;
    let q = 1int;
    let r = 405int;
    lemma_power_square(b, n, e, a, q, r);
    let e = 2 * e;
    let a = r;
    let q = 0int;
    let r = 3240int;
    lemma_power_times(b, n, e, a, q, r);
    let e = e + 1;
    let a = r;
    let q = 2844int;
    let r = 396int;
    lemma_power_square(b, n, e, a, q, r);
    let e = 2 * e;
    let a = r;
    let q = 42int;
    let r = 1794int;
    lemma_power_square(b, n, e, a, q, r);
    let e = 2 * e;
    let a = r;
    let q = 871int;
    let r = 3575int;
    lemma_power_square(b, n, e, a, q, r);
    let e = 2 * e;
    let a = r;
    let q = 7int;
    let r = 2763int;
    lemma_power_times(b, n, e, a, q, r);
    let e = e + 1;
    let a = r;
}

/// A power of the base of the certificate, as the power of a power.
proof fn lemma_node_3691_tb()
    ensures
        power_is(2int, 123nat, 3691int, 2763int),
{
    lemma_power_3691_root();
    lemma_power_3691_tb();
    lemma_power_of_power(2int, 3nat, 3691int, 8int, 41nat, 2763int);
    assert(3nat * 41nat == 123nat);
}

/// A power of a base, computed from the bits of the exponent.
proof fn lemma_power_3691_tba()
    ensures
        power_is(2763int, 6nat, 3691int, 643int),
{
    let n = 3691int;
    let b = 2763int;
    lemma_power_one(b, n);
    let e = 1nat;
    let a = 2763int;
    let q = 2068int;
    let r = 1181int;
    lemma_power_square(b, n, e, a, q, r);
    let e = 2 * e;
    let a = r;
    let q = 884int;
    let r = 259int;
    lemma_power_times(b, n, e, a, q, r);
    let e = e + 1;
    let a = r;
    let q = 18int;
    let r = 643int;
    lemma_power_square(b, n, e, a, q, r);
    let e = 2 * e;
    let a = r;
}

/// A power of the base of the certificate, as the power of a power.
proof fn lemma_node_3691_tba()
    ensures
        power_is(2int, 738nat, 3691int, 643int),
{
    lemma_node_3691_tb();
    lemma_power_3691_tba();
    lemma_power_of_power(2int, 123nat, 3691int, 2763int, 6nat, 643int);
    assert(123nat * 6nat == 738nat);
}

/// A power of a base, computed from the bits of the exponent.
proof fn lemma_power_3691_tbb()
    ensures
        power_is(2763int, 5nat, 3691int, 3217int),
{
    let n = 3691int;
    let b = 2763int;
    lemma_power_one(b, n);
    let e = 1nat;
    let a = 2763int;
    let q = 2068int;
    let r = 1181int;
    lemma_power_square(b, n, e, a, q, r);
    let e = 2 * e;
    let a = r;
    let q = 377int;
    let r = 3254int;
    lemma_power_square(b, n, e, a, q, r);
    let e = 2 * e;
    let a = r;
    let q = 2435int;
    let r = 3217int;
    lemma_power_times(b, n, e, a, q, r);
    let e = e + 1;
    let a = r;
}

/// A power of the base of the certificate, as the power of a power.
proof fn lemma_node_3691_tbb()
    ensures
        power_is(2int, 615nat, 3691int, 3217int),
{
    lemma_node_3691_tb();
    lemma_power_3691_tbb();
    lemma_power_of_power(2int, 123nat, 3691int, 2763int, 5nat, 3217int);
    assert(123nat * 5nat == 615nat);
}

/// A power of a base, computed from the bits of the exponent.
proof fn lemma_power_3691_tbba()
    ensures
        power_is(3217int, 2nat, 3691int, 3216int),
{
    let n = 3691int;
    let b = 3217int;
    lemma_power_one(b, n);
    let e = 1nat;
    let a = 3217int;
    let q = 2803int;
    let r = 3216int;
    lemma_power_square(b, n, e, a, q, r);
    let e = 2 * e;
    let a = r;
}

/// A power of the base of the certificate, as the power of a power.
proof fn lemma_node_3691_tbba()
    ensures
        power_is(2int, 1230nat, 3691int, 3216int),
{
    lemma_node_3691_tbb();
    lemma_power_3691_tbba();
    lemma_power_of_power(2int, 615nat, 3691int, 3217int, 2nat, 3216int);
    assert(615nat * 2nat == 1230nat);
}

/// A power of a base, computed from the bits of the exponent.
proof fn lemma_power_3691_tbbb()
    ensures
        power_is(3217int, 3nat, 3691int, 3690int),
{
    let n = 3691int;
    let b = 3217int;
    lemma_power_one(b, n);
    let e = 1nat;
    let a = 3217int;
    let q = 2803int;
    let r = 3216int;
    lemma_power_square(b, n, e, a, q, r);
    let e = 2 * e;
    let a = r;
    let q = 2802int;
    let r = 3690int;
    lemma_power_times(b, n, e, a, q, r);
    let e = e + 1;
    let a = r;
}

/// A power of the base of the certificate, as the power of a power.
proof fn lemma_node_3691_tbbb()
    ensures
        power_is(2int, 1845nat, 3691int, 3690int),
{
    lemma_node_3691_tbb();
    lemma_power_3691_tbbb();
    lemma_power_of_power(2int, 615nat, 3691int, 3217int, 3nat, 3690int);
    assert(615nat * 3nat == 1845nat);
}

/// A power of a base, computed from the bits of the exponent.
proof fn lemma_power_3691_full()
    ensures
        power_is(3690int, 2nat, 3691int, 1int),
{
    let n = 3691int;
    let b = 3690int;
    lemma_power_one(b, n);
    let e = 1nat;
    let a = 3690int;
    let q = 3689int;
    let r = 1int;
    lemma_power_square(b, n, e, a, q, r);
    let e = 2 * e;
    let a = r;
}

/// The certificate of 3691: base 2, and the prime factors of the
/// number before it.
pub proof fn lemma_certificate_3691() -> (factors: Seq<int>)
    ensures
        lucas_certificate(3691int, 2, factors),
{
    let n = 3691int;
    lemma_prime_2();
    lemma_node_3691_tbbb();
    lemma_power_is(2int, 1845nat, n, 3690int);
    lemma_prime_3();
    lemma_node_3691_tbba();
    lemma_power_is(2int, 1230nat, n, 3216int);
    lemma_prime_5();
    lemma_node_3691_tba();
    lemma_power_is(2int, 738nat, n, 643int);
    lemma_prime_41();
    lemma_node_3691_ta();
    lemma_power_is(2int, 90nat, n, 1752int);
    lemma_power_3691_full();
    lemma_power_of_power(2int, 1845nat, n, 3690int, 2nat, 1);
    assert(1845nat * 2nat == 3690nat);
    lemma_power_is(2int, 3690nat, n, 1);
    lemma_certified_empty(n, 2);
    let s = Seq::<int>::empty();
    lemma_certified_push(n, 2, s, 2int, 1845nat);
    let s = s.push(2int);
    assert(product(s) == 2int);
    lemma_certified_push(n, 2, s, 3int, 1230nat);
    let s = s.push(3int);
    assert(product(s) == 6int);
    lemma_certified_push(n, 2, s, 3int, 1230nat);
    let s = s.push(3int);
    assert(product(s) == 18int);
    lemma_certified_push(n, 2, s, 5int, 738nat);
    let s = s.push(5int);
    assert(product(s) == 90int);
    lemma_certified_push(n, 2, s, 41int, 90nat);
    let s = s.push(41int);
    assert(product(s) == 3690int);
    lemma_certificate(n, 2, s);
    s
}

/// 3691 is prime.
pub proof fn lemma_prime_3691()
    ensures
        is_prime(3691int),
{
    let factors = lemma_certificate_3691();
    lemma_lucas(3691int, 2, factors);
}

/// A power of a base, computed from the bits of the exponent.
proof fn lemma_power_4999_root()
    ensures
        power_is(3int, 7nat, 4999int, 2187int),
{
    let n = 4999int;
    let b = 3int;
    lemma_power_one(b, n);
    let e = 1nat;
    let a = 3int;
    let q = 0int;
    let r = 9int;
    lemma_power_square(b, n, e, a, q, r);
    let e = 2 * e;
    let a = r;
    let q = 0int;
    let r = 27int;
    lemma_power_times(b, n, e, a, q, r);
    let e = e + 1;
    let a = r;
    let q = 0int;
    let r = 729int;
    lemma_power_square(b, n, e, a, q, r);
    let e = 2 * e;
    let a = r;
    let q = 0int;
    let r = 2187int;
    lemma_power_times(b, n, e, a, q, r);
    let e = e + 1;
    let a = r;
}

/// A power of a base, computed from the bits of the exponent.
proof fn lemma_power_4999_ta()
    ensures
        power_is(2187int, 21nat, 4999int, 4679int),
{
    let n = 4999int;
    let b = 2187int;
    lemma_power_one(b, n);
    let e = 1nat;
    let a = 2187int;
    let q = 956int;
    let r = 3925int;
    lemma_power_square(b, n, e, a, q, r);
    let e = 2 * e;
    let a = r;
    let q = 3081int;
    let r = 3706int;
    lemma_power_square(b, n, e, a, q, r);
    let e = 2 * e;
    let a = r;
    let q = 1621int;
    let r = 1643int;
    lemma_power_times(b, n, e, a, q, r);
    let e = e + 1;
    let a = r;
    let q = 539int;
    let r = 4988int;
    lemma_power_square(b, n, e, a, q, r);
    let e = 2 * e;
    let a = r;
    let q = 4977int;
    let r = 121int;
    lemma_power_square(b, n, e, a, q, r);
    let e = 2 * e;
    let a = r;
    let q = 52int;
    let r = 4679int;
    lemma_power_times(b, n, e, a, q, r);
    let e = e + 1;
    let a = r;
}

/// A power of the base of the certificate, as the power of a power.
proof fn lemma_node_4999_ta()
    ensures
        power_is(3int, 147nat, 4999int, 4679int),
{
    lemma_power_4999_root();
    lemma_power_4999_ta();
    lemma_power_of_power(3int, 7nat, 4999int, 2187int, 21nat, 4679int);
    assert(7nat * 21nat == 147nat);
}

/// A power of a base, computed from the bits of the exponent.
proof fn lemma_power_4999_taa()
    ensures
        power_is(4679int, 2nat, 4999int, 2420int),
{
    let n = 4999int;
    let b = 4679int;
    lemma_power_one(b, n);
    let e = 1nat;
    let a = 4679int;
    let q = 4379int;
    let r = 2420int;
    lemma_power_square(b, n, e, a, q, r);
    let e = 2 * e;
    let a = r;
}

/// A power of the base of the certificate, as the power of a power.
proof fn lemma_node_4999_taa()
    ensures
        power_is(3int, 294nat, 4999int, 2420int),
{
    lemma_node_4999_ta();
    lemma_power_4999_taa();
    lemma_power_of_power(3int, 147nat, 4999int, 4679int, 2nat, 2420int);
    assert(147nat * 2nat == 294nat);
}

/// A power of a base, computed from the bits of the exponent.
proof fn lemma_power_4999_tab()
    ensures
        power_is(4679int, 17nat, 4999int, 4998int),
{
    let n = 4999int;
    let b = 4679int;
    lemma_power_one(b, n);
    let e = 1nat;
    let a = 4679int;
    let q = 4379int;
    let r = 2420int;
    lemma_power_square(b, n, e, a, q, r);
    let e = 2 * e;
    let a = r;
    let q = 1171int;
    let r = 2571int;
    lemma_power_square(b, n, e, a, q, r);
    let e = 2 * e;
    let a = r;
    let q = 1322int;
    let r = 1363int;
    lemma_power_square(b, n, e, a, q, r);
    let e = 2 * e;
    let a = r;
    let q = 371int;
    let r = 3140int;
    lemma_power_square(b, n, e, a, q, r);
    let e = 2 * e;
    let a = r;
    let q = 2938int;
    let r = 4998int;
    lemma_power_times(b, n, e, a, q, r);
    let e = e + 1;
    let a = r;
}

/// A power of the base of the certificate, as the power of a power.
proof fn lemma_node_4999_tab()
    ensures
        power_is(3int, 2499nat, 4999int, 4998int),
{
    lemma_node_4999_ta();
    lemma_power_4999_tab();
    lemma_power_of_power(3int, 147nat, 4999int, 4679int, 17nat, 4998int);
    assert(147nat * 17nat == 2499nat);
}

/// A power of a base, computed from the bits of the exponent.
proof fn lemma_power_4999_tb()
    ensures
        power_is(2187int, 34nat, 4999int, 1327int),
{
    let n = 4999int;
    let b = 2187int;
    lemma_power_one(b, n);
    let e = 1nat;
    let a = 2187int;
    let q = 956int;
    let r = 3925int;
    lemma_power_square(b, n, e, a, q, r);
    let e = 2 * e;
    let a = r;
    let q = 3081int;
    let r = 3706int;
    lemma_power_square(b, n, e, a, q, r);
    let e = 2 * e;
    let a = r;
    let q = 2747int;
    let r = 2183int;
    lemma_power_square(b, n, e, a, q, r);
    let e = 2 * e;
    let a = r;
    let q = 953int;
    let r = 1442int;
    lemma_power_square(b, n, e, a, q, r);
    let e = 2 * e;
    let a = r;
    let q = 630int;
    let r = 4284int;
    lemma_power_times(b, n, e, a, q, r);
    let e = e + 1;
    let a = r;
    let q = 3671int;
    let r = 1327int;
    lemma_power_square(b, n, e, a, q, r);
    let e = 2 * e;
    let a = r;
}

/// A power of the base of the certificate, as the power of a power.
proof fn lemma_node_4999_tb()
    ensures
        power_is(3int, 238nat, 4999int, 1327int),
{
    lemma_power_4999_root();
    lemma_power_4999_tb();
    lemma_power_of_power(3int, 7nat, 4999int, 2187int, 34nat, 1327int);
    assert(7nat * 34nat == 238nat);
}

/// A power of a base, computed from the bits of the exponent.
proof fn lemma_power_4999_tba()
    ensures
        power_is(1327int, 3nat, 4999int, 227int),
{
    let n = 4999int;
    let b = 1327int;
    lemma_power_one(b, n);
    let e = 1nat;
    let a = 1327int;
    let q = 352int;
    let r = 1281int;
    lemma_power_square(b, n, e, a, q, r);
    let e = 2 * e;
    let a = r;
    let q = 340int;
    let r = 227int;
    lemma_power_times(b, n, e, a, q, r);
    let e = e + 1;
    let a = r;
}

/// A power of the base of the certificate, as the power of a power.
proof fn lemma_node_4999_tba()
    ensures
        power_is(3int, 714nat, 4999int, 227int),
{
    lemma_node_4999_tb();
    lemma_power_4999_tba();
    lemma_power_of_power(3int, 238nat, 4999int, 1327int, 3nat, 227int);
    assert(238nat * 3nat == 714nat);
}

/// A power of a base, computed from the bits of the exponent.
proof fn lemma_power_4999_tbb()
    ensures
        power_is(1327int, 7nat, 4999int, 2661int),
{
    let n = 4999int;
    let b = 1327int;
    lemma_power_one(b, n);
    let e = 1nat;
    let a = 1327int;
    let q = 352int;
    let r = 1281int;
    lemma_power_square(b, n, e, a, q, r);
    let e = 2 * e;
    let a = r;
    let q = 340int;
    let r = 227int;
    lemma_power_times(b, n, e, a, q, r);
    let e = e + 1;
    let a = r;
    let q = 10int;
    let r = 1539int;
    lemma_power_square(b, n, e, a, q, r);
    let e = 2 * e;
    let a = r;
    let q = 408int;
    let r = 2661int;
    lemma_power_times(b, n, e, a, q, r);
    let e = e + 1;
    let a = r;
}

/// A power of the base of the certificate, as the power of a power.
proof fn lemma_node_4999_tbb()
    ensures
        power_is(3int, 1666nat, 4999int, 2661int),
{
    lemma_node_4999_tb();
    lemma_power_4999_tbb();
    lemma_power_of_power(3int, 238nat, 4999int, 1327int, 7nat, 2661int);
    assert(238nat * 7nat == 1666nat);
}

/// A power of a base, computed from the bits of the exponent.
proof fn lemma_power_4999_full()
    ensures
        power_is(4998int, 2nat, 4999int, 1int),
{
    let n = 4999int;
    let b = 4998int;
    lemma_power_one(b, n);
    let e = 1nat;
    let a = 4998int;
    let q = 4997int;
    let r = 1int;
    lemma_power_square(b, n, e, a, q, r);
    let e = 2 * e;
    let a = r;
}

/// The certificate of 4999: base 3, and the prime factors of the
/// number before it.
pub proof fn lemma_certificate_4999() -> (factors: Seq<int>)
    ensures
        lucas_certificate(4999int, 3, factors),
{
    let n = 4999int;
    lemma_prime_2();
    lemma_node_4999_tab();
    lemma_power_is(3int, 2499nat, n, 4998int);
    lemma_prime_3();
    lemma_node_4999_tbb();
    lemma_power_is(3int, 1666nat, n, 2661int);
    lemma_prime_7();
    lemma_node_4999_tba();
    lemma_power_is(3int, 714nat, n, 227int);
    lemma_prime_17();
    lemma_node_4999_taa();
    lemma_power_is(3int, 294nat, n, 2420int);
    lemma_power_4999_full();
    lemma_power_of_power(3int, 2499nat, n, 4998int, 2nat, 1);
    assert(2499nat * 2nat == 4998nat);
    lemma_power_is(3int, 4998nat, n, 1);
    lemma_certified_empty(n, 3);
    let s = Seq::<int>::empty();
    lemma_certified_push(n, 3, s, 2int, 2499nat);
    let s = s.push(2int);
    assert(product(s) == 2int);
    lemma_certified_push(n, 3, s, 3int, 1666nat);
    let s = s.push(3int);
    assert(product(s) == 6int);
    lemma_certified_push(n, 3, s, 7int, 714nat);
    let s = s.push(7int);
    assert(product(s) == 42int);
    lemma_certified_push(n, 3, s, 7int, 714nat);
    let s = s.push(7int);
    assert(product(s) == 294int);
    lemma_certified_push(n, 3, s, 17int, 294nat);
    let s = s.push(17int);
    assert(product(s) == 4998int);
    lemma_certificate(n, 3, s);
    s
}

/// 4999 is prime.
pub proof fn lemma_prime_4999()
    ensures
        is_prime(4999int),
{
    let factors = lemma_certificate_4999();
    lemma_lucas(4999int, 3, factors);
}

/// A power of a base, computed from the bits of the exponent.
proof fn lemma_power_5501_root()
    ensures
        power_is(2int, 50nat, 5501int, 4219int),
{
    let n = 5501int;
    let b = 2int;
    lemma_power_one(b, n);
    let e = 1nat;
    let a = 2int;
    let q = 0int;
    let r = 4int;
    lemma_power_square(b, n, e, a, q, r);
    let e = 2 * e;
    let a = r;
    let q = 0int;
    let r = 8int;
    lemma_power_times(b, n, e, a, q, r);
    let e = e + 1;
    let a = r;
    let q = 0int;
    let r = 64int;
    lemma_power_square(b, n, e, a, q, r);
    let e = 2 * e;
    let a = r;
    let q = 0int;
    let r = 4096int;
    lemma_power_square(b, n, e, a, q, r);
    let e = 2 * e;
    let a = r;
    let q = 3049int;
    let r = 4667int;
    lemma_power_square(b, n, e, a, q, r);
    let e = 2 * e;
    let a = r;
    let q = 1int;
    let r = 3833int;
    lemma_power_times(b, n, e, a, q, r);
    let e = e + 1;
    let a = r;
    let q = 2670int;
    let r = 4219int;
    lemma_power_square(b, n, e, a, q, r);
    let e = 2 * e;
    let a = r;
}

/// A power of a base, computed from the bits of the exponent.
proof fn lemma_power_5501_ta()
    ensures
        power_is(4219int, 10nat, 5501int, 4772int),
{
    let n = 5501int;
    let b = 4219int;
    lemma_power_one(b, n);
    let e = 1nat;
    let a = 4219int;
    let q = 3235int;
    let r = 4226int;
    lemma_power_square(b, n, e, a, q, r);
    let e = 2 * e;
    let a = r;
    let q = 3246int;
    let r = 2830int;
    lemma_power_square(b, n, e, a, q, r);
    let e = 2 * e;
    let a = r;
    let q = 2170int;
    let r = 2600int;
    lemma_power_times(b, n, e, a, q, r);
    let e = e + 1;
    let a = r;
    let q = 1228int;
    let r = 4772int;
    lemma_power_square(b, n, e, a, q, r);
    let e = 2 * e;
    let a = r;
}

/// A power of the base of the certificate, as the power of a power.
proof fn lemma_node_5501_ta()
    ensures
        power_is(2int, 500nat, 5501int, 4772int),
{
    lemma_power_5501_root();
    lemma_power_5501_ta();
    lemma_power_of_power(2int, 50nat, 5501int, 4219int, 10nat, 4772int);
    assert(50nat * 10nat == 500nat);
}

/// A power of a base, computed from the bits of the exponent.
proof fn lemma_power_5501_tb()
    ensures
        power_is(4219int, 11nat, 5501int, 4909int),
{
    let n = 5501int;
    let b = 4219int;
    lemma_power_one(b, n);
    let e = 1nat;
    let a = 4219int;
    let q = 3235int;
    let r = 4226int;
    lemma_power_square(b, n, e, a, q, r);
    let e = 2 * e;
    let a = r;
    let q = 3246int;
    let r = 2830int;
    lemma_power_square(b, n, e, a, q, r);
    let e = 2 * e;
    let a = r;
    let q = 2170int;
    let r = 2600int;
    lemma_power_times(b, n, e, a, q, r);
    let e = e + 1;
    let a = r;
    let q = 1228int;
    let r = 4772int;
    lemma_power_square(b, n, e, a, q, r);
    let e = 2 * e;
    let a = r;
    let q = 3659int;
    let r = 4909int;
    lemma_power_times(b, n, e, a, q, r);
    let e = e + 1;
    let a = r;
}

/// A power of the base of the certificate, as the power of a power.
proof fn lemma_node_5501_tb()
    ensures
        power_is(2int, 550nat, 5501int, 4909int),
{
    lemma_power_5501_root();
    lemma_power_5501_tb();
    lemma_power_of_power(2int, 50nat, 5501int, 4219int, 11nat, 4909int);
    assert(50nat * 11nat == 550nat);
}

/// A power of a base, computed from the bits of the exponent.
proof fn lemma_power_5501_tba()
    ensures
        power_is(4909int, 2nat, 5501int, 3901int),
{
    let n = 5501int;
    let b = 4909int;
    lemma_power_one(b, n);
    let e = 1nat;
    let a = 4909int;
    let q = 4380int;
    let r = 3901int;
    lemma_power_square(b, n, e, a, q, r);
    let e = 2 * e;
    let a = r;
}

/// A power of the base of the certificate, as the power of a power.
proof fn lemma_node_5501_tba()
    ensures
        power_is(2int, 1100nat, 5501int, 3901int),
{
    lemma_node_5501_tb();
    lemma_power_5501_tba();
    lemma_power_of_power(2int, 550nat, 5501int, 4909int, 2nat, 3901int);
    assert(550nat * 2nat == 1100nat);
}

/// A power of a base, computed from the bits of the exponent.
proof fn lemma_power_5501_tbb()
    ensures
        power_is(4909int, 5nat, 5501int, 5500int),
{
    let n = 5501int;
    let b = 4909int;
    lemma_power_one(b, n);
    let e = 1nat;
    let a = 4909int;
    let q = 4380int;
    let r = 3901int;
    lemma_power_square(b, n, e, a, q, r);
    let e = 2 * e;
    let a = r;
    let q = 2766int;
    let r = 2035int;
    lemma_power_square(b, n, e, a, q, r);
    let e = 2 * e;
    let a = r;
    let q = 1815int;
    let r = 5500int;
    lemma_power_times(b, n, e, a, q, r);
    let e = e + 1;
    let a = r;
}

/// A power of the base of the certificate, as the power of a power.
proof fn lemma_node_5501_tbb()
    ensures
        power_is(2int, 2750nat, 5501int, 5500int),
{
    lemma_node_5501_tb();
    lemma_power_5501_tbb();
    lemma_power_of_power(2int, 550nat, 5501int, 4909int, 5nat, 5500int);
    assert(550nat * 5nat == 2750nat);
}

/// A power of a base, computed from the bits of the exponent.
proof fn lemma_power_5501_full()
    ensures
        power_is(5500int, 2nat, 5501int, 1int),
{
    let n = 5501int;
    let b = 5500int;
    lemma_power_one(b, n);
    let e = 1nat;
    let a = 5500int;
    let q = 5499int;
    let r = 1int;
    lemma_power_square(b, n, e, a, q, r);
    let e = 2 * e;
    let a = r;
}

/// The certificate of 5501: base 2, and the prime factors of the
/// number before it.
pub proof fn lemma_certificate_5501() -> (factors: Seq<int>)
    ensures
        lucas_certificate(5501int, 2, factors),
{
    let n = 5501int;
    lemma_prime_2();
    lemma_node_5501_tbb();
    lemma_power_is(2int, 2750nat, n, 5500int);
    lemma_prime_5();
    lemma_node_5501_tba();
    lemma_power_is(2int, 1100nat, n, 3901int);
    lemma_prime_11();
    lemma_node_5501_ta();
    lemma_power_is(2int, 500nat, n, 4772int);
    lemma_power_5501_full();
    lemma_power_of_power(2int, 2750nat, n, 5500int, 2nat, 1);
    assert(2750nat * 2nat == 5500nat);
    lemma_power_is(2int, 5500nat, n, 1);
    lemma_certified_empty(n, 2);
    let s = Seq::<int>::empty();
    lemma_certified_push(n, 2, s, 2int, 2750nat);
    let s = s.push(2int);
    assert(product(s) == 2int);
    lemma_certified_push(n, 2, s, 2int, 2750nat);
    let s = s.push(2int);
    assert(product(s) == 4int);
    lemma_certified_push(n, 2, s, 5int, 1100nat);
    let s = s.push(5int);
    assert(product(s) == 20int);
    lemma_certified_push(n, 2, s, 5int, 1100nat);
    let s = s.push(5int);
    assert(product(s) == 100int);
    lemma_certified_push(n, 2, s, 5int, 1100nat);
    let s = s.push(5int);
    assert(product(s) == 500int);
    lemma_certified_push(n, 2, s, 11int, 500nat);
    let s = s.push(11int);
    assert(product(s) == 5500int);
    lemma_certificate(n, 2, s);
    s
}

/// 5501 is prime.
pub proof fn lemma_prime_5501()
    ensures
        is_prime(5501int),
{
    let factors = lemma_certificate_5501();
    lemma_lucas(5501int, 2, factors);
}

/// A power of a base, computed from the bits of the exponent.
proof fn lemma_power_11003_root()
    ensures
        power_is(2int, 1nat, 11003int, 2int),
{
    let n = 11003int;
    let b = 2int;
    lemma_power_one(b, n);
    let e = 1nat;
    let a = 2int;
}

/// A power of a base, computed from the bits of the exponent.
proof fn lemma_power_11003_ta()
    ensures
        power_is(2int, 2nat, 11003int, 4int),
{
    let n = 11003int;
    let b = 2int;
    lemma_power_one(b, n);
    let e = 1nat;
    let a = 2int;
    let q = 0int;
    let r = 4int;
    lemma_power_square(b, n, e, a, q, r);
    let e = 2 * e;
    let a = r;
}

/// A power of the base of the certificate, as the power of a power.
proof fn lemma_node_11003_ta()
    ensures
        power_is(2int, 2nat, 11003int, 4int),
{
    lemma_power_11003_root();
    lemma_power_11003_ta();
    lemma_power_of_power(2int, 1nat, 11003int, 2int, 2nat, 4int);
    assert(1nat * 2nat == 2nat);
}

/// A power of a base, computed from the bits of the exponent.
proof fn lemma_power_11003_tb()
    ensures
        power_is(2int, 5501nat, 11003int, 11002int),
{
    let n = 11003int;
    let b = 2int;
    lemma_power_one(b, n);
    let e = 1nat;
    let a = 2int;
    let q = 0int;
    let r = 4int;
    lemma_power_square(b, n, e, a, q, r);
    let e = 2 * e;
    let a = r;
    let q = 0int;
    let r = 16int;
    lemma_power_square(b, n, e, a, q, r);
    let e = 2 * e;
    let a = r;
    let q = 0int;
    let r = 32int;
    lemma_power_times(b, n, e, a, q, r);
    let e = e + 1;
    let a = r;
    let q = 0int;
    let r = 1024int;
    lemma_power_square(b, n, e, a, q, r);
    let e = 2 * e;
    let a = r;
    let q = 95int;
    let r = 3291int;
    lemma_power_square(b, n, e, a, q, r);
    let e = 2 * e;
    let a = r;
    let q = 0int;
    let r = 6582int;
    lemma_power_times(b, n, e, a, q, r);
    let e = e + 1;
    let a = r;
    let q = 3937int;
    let r = 3913int;
    lemma_power_square(b, n, e, a, q, r);
    let e = 2 * e;
    let a = r;
    let q = 1391int;
    let r = 6396int;
    lemma_power_square(b, n, e, a, q, r);
    let e = 2 * e;
    let a = r;
    let q = 1int;
    let r = 1789int;
    lemma_power_times(b, n, e, a, q, r);
    let e = e + 1;
    let a = r;
    let q = 290int;
    let r = 9651int;
    lemma_power_square(b, n, e, a, q, r);
    let e = 2 * e;
    let a = r;
    let q = 1int;
    let r = 8299int;
    lemma_power_times(b, n, e, a, q, r);
    let e = e + 1;
    let a = r;
    let q = 6259int;
    let r = 5624int;
    lemma_power_square(b, n, e, a, q, r);
    let e = 2 * e;
    let a = r;
    let q = 1int;
    let r = 245int;
    lemma_power_times(b, n, e, a, q, r);
    let e = e + 1;
    let a = r;
    let q = 5int;
    let r = 5010int;
    lemma_power_square(b, n, e, a, q, r);
    let e = 2 * e;
    let a = r;
    let q = 0int;
    let r = 10020int;
    lemma_power_times(b, n, e, a, q, r);
    let e = e + 1;
    let a = r;
    let q = 9124int;
    let r = 9028int;
    lemma_power_square(b, n, e, a, q, r);
    let e = 2 * e;
    let a = r;
    let q = 1int;
    let r = 7053int;
    lemma_power_times(b, n, e, a, q, r);
    let e = e + 1;
    let a = r;
    let q = 4521int;
    let r = 246int;
    lemma_power_square(b, n, e, a, q, r);
    let e = 2 * e;
    let a = r;
    let q = 5int;
    let r = 5501int;
    lemma_power_square(b, n, e, a, q, r);
    let e = 2 * e;
    let a = r;
    let q = 0int;
    let r = 11002int;
    lemma_power_times(b, n, e, a, q, r);
    let e = e + 1;
    let a = r;
}

/// A power of the base of the certificate, as the power of a power.
proof fn lemma_node_11003_tb()
    ensures
        power_is(2int, 5501nat, 11003int, 11002int),
{
    lemma_power_11003_root();
    lemma_power_11003_tb();
    lemma_power_of_power(2int, 1nat, 11003int, 2int, 5501nat, 11002int);
    assert(1nat * 5501nat == 5501nat);
}

/// A power of a base, computed from the bits of the exponent.
proof fn lemma_power_11003_full()
    ensures
        power_is(11002int, 2nat, 11003int, 1int),
{
    let n = 11003int;
    let b = 11002int;
    lemma_power_one(b, n);
    let e = 1nat;
    let a = 11002int;
    let q = 11001int;
    let r = 1int;
    lemma_power_square(b, n, e, a, q, r);
    let e = 2 * e;
    let a = r;
}

/// The certificate of 11003: base 2, and the prime factors of the
/// number before it.
pub proof fn lemma_certificate_11003() -> (factors: Seq<int>)
    ensures
        lucas_certificate(11003int, 2, factors),
{
    let n = 11003int;
    lemma_prime_2();
    lemma_node_11003_tb();
    lemma_power_is(2int, 5501nat, n, 11002int);
    lemma_prime_5501();
    lemma_node_11003_ta();
    lemma_power_is(2int, 2nat, n, 4int);
    lemma_power_11003_full();
    lemma_power_of_power(2int, 5501nat, n, 11002int, 2nat, 1);
    assert(5501nat * 2nat == 11002nat);
    lemma_power_is(2int, 11002nat, n, 1);
    lemma_certified_empty(n, 2);
    let s = Seq::<int>::empty();
    lemma_certified_push(n, 2, s, 2int, 5501nat);
    let s = s.push(2int);
    assert(product(s) == 2int);
    lemma_certified_push(n, 2, s, 5501int, 2nat);
    let s = s.push(5501int);
    assert(product(s) == 11002int);
    lemma_certificate(n, 2, s);
    s
}

/// 11003 is prime.
pub proof fn lemma_prime_11003()
    ensures
        is_prime(11003int),
{
    let factors = lemma_certificate_11003();
    lemma_lucas(11003int, 2, factors);
}

/// A power of a base, computed from the bits of the exponent.
proof fn lemma_power_20963_root()
    ensures
        power_is(2int, 1nat, 20963int, 2int),
{
    let n = 20963int;
    let b = 2int;
    lemma_power_one(b, n);
    let e = 1nat;
    let a = 2int;
}

/// A power of a base, computed from the bits of the exponent.
proof fn lemma_power_20963_ta()
    ensures
        power_is(2int, 94nat, 20963int, 12288int),
{
    let n = 20963int;
    let b = 2int;
    lemma_power_one(b, n);
    let e = 1nat;
    let a = 2int;
    let q = 0int;
    let r = 4int;
    lemma_power_square(b, n, e, a, q, r);
    let e = 2 * e;
    let a = r;
    let q = 0int;
    let r = 16int;
    lemma_power_square(b, n, e, a, q, r);
    let e = 2 * e;
    let a = r;
    let q = 0int;
    let r = 32int;
    lemma_power_times(b, n, e, a, q, r);
    let e = e + 1;
    let a = r;
    let q = 0int;
    let r = 1024int;
    lemma_power_square(b, n, e, a, q, r);
    let e = 2 * e;
    let a = r;
    let q = 0int;
    let r = 2048int;
    lemma_power_times(b, n, e, a, q, r);
    let e = e + 1;
    let a = r;
    let q = 200int;
    let r = 1704int;
    lemma_power_square(b, n, e, a, q, r);
    let e = 2 * e;
    let a = r;
    let q = 0int;
    let r = 3408int;
    lemma_power_times(b, n, e, a, q, r);
    let e = e + 1;
    let a = r;
    let q = 554int;
    let r = 962int;
    lemma_power_square(b, n, e, a, q, r);
    let e = 2 * e;
    let a = r;
    let q = 0int;
    let r = 1924int;
    lemma_power_times(b, n, e, a, q, r);
    let e = e + 1;
    let a = r;
    let q = 176int;
    let r = 12288int;
    lemma_power_square(b, n, e, a, q, r);
    let e = 2 * e;
    let a = r;
}

/// A power of the base of the certificate, as the power of a power.
proof fn lemma_node_20963_ta()
    ensures
        power_is(2int, 94nat, 20963int, 12288int),
{
    lemma_power_20963_root();
    lemma_power_20963_ta();
    lemma_power_of_power(2int, 1nat, 20963int, 2int, 94nat, 12288int);
    assert(1nat * 94nat == 94nat);
}

/// A power of a base, computed from the bits of the exponent.
proof fn lemma_power_20963_tb()
    ensures
        power_is(2int, 223nat, 20963int, 8507int),
{
    let n = 20963int;
    let b = 2int;
    lemma_power_one(b, n);
    let e = 1nat;
    let a = 2int;
    let q = 0int;
    let r = 4int;
    lemma_power_square(b, n, e, a, q, r);
    let e = 2 * e;
    let a = r;
    let q = 0int;
    let r = 8int;
    lemma_power_times(b, n, e, a, q, r);
    let e = e + 1;
    let a = r;
    let q = 0int;
    let r = 64int;
    lemma_power_square(b, n, e, a, q, r);
    let e = 2 * e;
    let a = r;
    let q = 0int;
    let r = 4096int;
    lemma_power_square(b, n, e, a, q, r);
    let e = 2 * e;
    let a = r;
    let q = 0int;
    let r = 8192int;
    lemma_power_times(b, n, e, a, q, r);
    let e = e + 1;
    let a = r;
    let q = 3201int;
    let r = 6301int;
    lemma_power_square(b, n, e, a, q, r);
    let e = 2 * e;
    let a = r;
    let q = 0int;
    let r = 12602int;
    lemma_power_times(b, n, e, a, q, r);
    let e = e + 1;
    let a = r;
    let q = 7575int;
    let r = 15679int;
    lemma_power_square(b, n, e, a, q, r);
    let e = 2 * e;
    let a = r;
    let q = 1int;
    let r = 10395int;
    lemma_power_times(b, n, e, a, q, r);
    let e = e + 1;
    let a = r;
    let q = 5154int;
    let r = 12723int;
    lemma_power_square(b, n, e, a, q, r);
    let e = 2 * e;
    let a = r;
    let q = 1int;
    let r = 4483int;
    lemma_power_times(b, n, e, a, q, r);
    let e = e + 1;
    let a = r;
    let q = 958int;
    let r = 14735int;
    lemma_power_square(b, n, e, a, q, r);
    let e = 2 * e;
    let a = r;
    let q = 1int;
    let r = 8507int;
    lemma_power_times(b, n, e, a, q, r);
    let e = e + 1;
    let a = r;
}

/// A power of the base of the certificate, as the power of a power.
proof fn lemma_node_20963_tb()
    ensures
        power_is(2int, 223nat, 20963int, 8507int),
{
    lemma_power_20963_root();
    lemma_power_20963_tb();
    lemma_power_of_power(2int, 1nat, 20963int, 2int, 223nat, 8507int);
    assert(1nat * 223nat == 223nat);
}

/// A power of a base, computed from the bits of the exponent.
proof fn lemma_power_20963_tba()
    ensures
        power_is(8507int, 2nat, 20963int, 4773int),
{
    let n = 20963int;
    let b = 8507int;
    lemma_power_one(b, n);
    let e = 1nat;
    let a = 8507int;
    let q = 3452int;
    let r = 4773int;
    lemma_power_square(b, n, e, a, q, r);
    let e = 2 * e;
    let a = r;
}

/// A power of the base of the certificate, as the power of a power.
proof fn lemma_node_20963_tba()
    ensures
        power_is(2int, 446nat, 20963int, 4773int),
{
    lemma_node_20963_tb();
    lemma_power_20963_tba();
    lemma_power_of_power(2int, 223nat, 20963int, 8507int, 2nat, 4773int);
    assert(223nat * 2nat == 446nat);
}

/// A power of a base, computed from the bits of the exponent.
proof fn lemma_power_20963_tbb()
    ensures
        power_is(8507int, 47nat, 20963int, 20962int),
{
    let n = 20963int;
    let b = 8507int;
    lemma_power_one(b, n);
    let e = 1nat;
    let a = 8507int;
    let q = 3452int;
    let r = 4773int;
    lemma_power_square(b, n, e, a, q, r);
    let e = 2 * e;
    let a = r;
    let q = 1086int;
    let r = 15711int;
    lemma_power_square(b, n, e, a, q, r);
    let e = 2 * e;
    let a = r;
    let q = 6375int;
    let r = 14352int;
    lemma_power_times(b, n, e, a, q, r);
    let e = e + 1;
    let a = r;
    let q = 9825int;
    let r = 18429int;
    lemma_power_square(b, n, e, a, q, r);
    let e = 2 * e;
    let a = r;
    let q = 7478int;
    let r = 14189int;
    lemma_power_times(b, n, e, a, q, r);
    let e = e + 1;
    let a = r;
    let q = 9603int;
    let r = 20032int;
    lemma_power_square(b, n, e, a, q, r);
    let e = 2 * e;
    let a = r;
    let q = 8129int;
    let r = 3997int;
    lemma_power_times(b, n, e, a, q, r);
    let e = e + 1;
    let a = r;
    let q = 762int;
    let r = 2203int;
    lemma_power_square(b, n, e, a, q, r);
    let e = 2 * e;
    let a = r;
    let q = 893int;
    let r = 20962int;
    lemma_power_times(b, n, e, a, q, r);
    let e = e + 1;
    let a = r;
}

/// A power of the base of the certificate, as the power of a power.
proof fn lemma_node_20963_tbb()
    ensures
        power_is(2int, 10481nat, 20963int, 20962int),
{
    lemma_node_20963_tb();
    lemma_power_20963_tbb();
    lemma_power_of_power(2int, 223nat, 20963int, 8507int, 47nat, 20962int);
    assert(223nat * 47nat == 10481nat);
}

/// A power of a base, computed from the bits of the exponent.
proof fn lemma_power_20963_full()
    ensures
        power_is(20962int, 2nat, 20963int, 1int),
{
    let n = 20963int;
    let b = 20962int;
    lemma_power_one(b, n);
    let e = 1nat;
    let a = 20962int;
    let q = 20961int;
    let r = 1int;
    lemma_power_square(b, n, e, a, q, r);
    let e = 2 * e;
    let a = r;
}

/// The certificate of 20963: base 2, and the prime factors of the
/// number before it.
pub proof fn lemma_certificate_20963() -> (factors: Seq<int>)
    ensures
        lucas_certificate(20963int, 2, factors),
{
    let n = 20963int;
    lemma_prime_2();
    lemma_node_20963_tbb();
    lemma_power_is(2int, 10481nat, n, 20962int);
    lemma_prime_47();
    lemma_node_20963_tba();
    lemma_power_is(2int, 446nat, n, 4773int);
    lemma_prime_223();
    lemma_node_20963_ta();
    lemma_power_is(2int, 94nat, n, 12288int);
    lemma_power_20963_full();
    lemma_power_of_power(2int, 10481nat, n, 20962int, 2nat, 1);
    assert(10481nat * 2nat == 20962nat);
    lemma_power_is(2int, 20962nat, n, 1);
    lemma_certified_empty(n, 2);
    let s = Seq::<int>::empty();
    lemma_certified_push(n, 2, s, 2int, 10481nat);
    let s = s.push(2int);
    assert(product(s) == 2int);
    lemma_certified_push(n, 2, s, 47int, 446nat);
    let s = s.push(47int);
    assert(product(s) == 94int);
    lemma_certified_push(n, 2, s, 223int, 94nat);
    let s = s.push(223int);
    assert(product(s) == 20962int);
    lemma_certificate(n, 2, s);
    s
}

/// 20963 is prime.
pub proof fn lemma_prime_20963()
    ensures
        is_prime(20963int),
{
    let factors = lemma_certificate_20963();
    lemma_lucas(20963int, 2, factors);
}

/// A power of a base, computed from the bits of the exponent.
proof fn lemma_power_41927_root()
    ensures
        power_is(5int, 1nat, 41927int, 5int),
{
    let n = 41927int;
    let b = 5int;
    lemma_power_one(b, n);
    let e = 1nat;
    let a = 5int;
}

/// A power of a base, computed from the bits of the exponent.
proof fn lemma_power_41927_ta()
    ensures
        power_is(5int, 2nat, 41927int, 25int),
{
    let n = 41927int;
    let b = 5int;
    lemma_power_one(b, n);
    let e = 1nat;
    let a = 5int;
    let q = 0int;
    let r = 25int;
    lemma_power_square(b, n, e, a, q, r);
    let e = 2 * e;
    let a = r;
}

/// A power of the base of the certificate, as the power of a power.
proof fn lemma_node_41927_ta()
    ensures
        power_is(5int, 2nat, 41927int, 25int),
{
    lemma_power_41927_root();
    lemma_power_41927_ta();
    lemma_power_of_power(5int, 1nat, 41927int, 5int, 2nat, 25int);
    assert(1nat * 2nat == 2nat);
}

/// A power of a base, computed from the bits of the exponent.
proof fn lemma_power_41927_tb()
    ensures
        power_is(5int, 20963nat, 41927int, 41926int),
{
    let n = 41927int;
    let b = 5int;
    lemma_power_one(b, n);
    let e = 1nat;
    let a = 5int;
    let q = 0int;
    let r = 25int;
    lemma_power_square(b, n, e, a, q, r);
    let e = 2 * e;
    let a = r;
    let q = 0int;
    let r = 625int;
    lemma_power_square(b, n, e, a, q, r);
    let e = 2 * e;
    let a = r;
    let q = 0int;
    let r = 3125int;
    lemma_power_times(b, n, e, a, q, r);
    let e = e + 1;
    let a = r;
    let q = 232int;
    let r = 38561int;
    lemma_power_square(b, n, e, a, q, r);
    let e = 2 * e;
    let a = r;
    let q = 35465int;
    let r = 9666int;
    lemma_power_square(b, n, e, a, q, r);
    let e = 2 * e;
    let a = r;
    let q = 2228int;
    let r = 18200int;
    lemma_power_square(b, n, e, a, q, r);
    let e = 2 * e;
    let a = r;
    let q = 7900int;
    let r = 16700int;
    lemma_power_square(b, n, e, a, q, r);
    let e = 2 * e;
    let a = r;
    let q = 1int;
    let r = 41573int;
    lemma_power_times(b, n, e, a, q, r);
    let e = e + 1;
    let a = r;
    let q = 41221int;
    let r = 41462int;
    lemma_power_square(b, n, e, a, q, r);
    let e = 2 * e;
    let a = r;
    let q = 4int;
    let r = 39602int;
    lemma_power_times(b, n, e, a, q, r);
    let e = e + 1;
    let a = r;
    let q = 37405int;
    let r = 38969int;
    lemma_power_square(b, n, e, a, q, r);
    let e = 2 * e;
    let a = r;
    let q = 4int;
    let r = 27137int;
    lemma_power_times(b, n, e, a, q, r);
    let e = e + 1;
    let a = r;
    let q = 17564int;
    let r = 10941int;
    lemma_power_square(b, n, e, a, q, r);
    let e = 2 * e;
    let a = r;
    let q = 1int;
    let r = 12778int;
    lemma_power_times(b, n, e, a, q, r);
    let e = e + 1;
    let a = r;
    let q = 3894int;
    let r = 13546int;
    lemma_power_square(b, n, e, a, q, r);
    let e = 2 * e;
    let a = r;
    let q = 4376int;
    let r = 21564int;
    lemma_power_square(b, n, e, a, q, r);
    let e = 2 * e;
    let a = r;
    let q = 11090int;
    let r = 35666int;
    lemma_power_square(b, n, e, a, q, r);
    let e = 2 * e;
    let a = r;
    let q = 30339int;
    let r = 40303int;
    lemma_power_square(b, n, e, a, q, r);
    let e = 2 * e;
    let a = r;
    let q = 4int;
    let r = 33807int;
    lemma_power_times(b, n, e, a, q, r);
    let e = e + 1;
    let a = r;
    let q = 27259int;
    let r = 25156int;
    lemma_power_square(b, n, e, a, q, r);
    let e = 2 * e;
    let a = r;
    let q = 2int;
    let r = 41926int;
    lemma_power_times(b, n, e, a, q, r);
    let e = e + 1;
    let a = r;
}

/// A power of the base of the certificate, as the power of a power.
proof fn lemma_node_41927_tb()
    ensures
        power_is(5int, 20963nat, 41927int, 41926int),
{
    lemma_power_41927_root();
    lemma_power_41927_tb();
    lemma_power_of_power(5int, 1nat, 41927int, 5int, 20963nat, 41926int);
    assert(1nat * 20963nat == 20963nat);
}

/// A power of a base, computed from the bits of the exponent.
proof fn lemma_power_41927_full()
    ensures
        power_is(41926int, 2nat, 41927int, 1int),
{
    let n = 41927int;
    let b = 41926int;
    lemma_power_one(b, n);
    let e = 1nat;
    let a = 41926int;
    let q = 41925int;
    let r = 1int;
    lemma_power_square(b, n, e, a, q, r);
    let e = 2 * e;
    let a = r;
}

/// The certificate of 41927: base 5, and the prime factors of the
/// number before it.
pub proof fn lemma_certificate_41927() -> (factors: Seq<int>)
    ensures
        lucas_certificate(41927int, 5, factors),
{
    let n = 41927int;
    lemma_prime_2();
    lemma_node_41927_tb();
    lemma_power_is(5int, 20963nat, n, 41926int);
    lemma_prime_20963();
    lemma_node_41927_ta();
    lemma_power_is(5int, 2nat, n, 25int);
    lemma_power_41927_full();
    lemma_power_of_power(5int, 20963nat, n, 41926int, 2nat, 1);
    assert(20963nat * 2nat == 41926nat);
    lemma_power_is(5int, 41926nat, n, 1);
    lemma_certified_empty(n, 5);
    let s = Seq::<int>::empty();
    lemma_certified_push(n, 5, s, 2int, 20963nat);
    let s = s.push(2int);
    assert(product(s) == 2int);
    lemma_certified_push(n, 5, s, 20963int, 2nat);
    let s = s.push(20963int);
    assert(product(s) == 41926int);
    lemma_certificate(n, 5, s);
    s
}

/// 41927 is prime.
pub proof fn lemma_prime_41927()
    ensures
        is_prime(41927int),
{
    let factors = lemma_certificate_41927();
    lemma_lucas(41927int, 5, factors);
}

/// A power of a base, computed from the bits of the exponent.
proof fn lemma_power_93001_root()
    ensures
        power_is(14int, 100nat, 93001int, 63405int),
{
    let n = 93001int;
    let b = 14int;
    lemma_power_one(b, n);
    let e = 1nat;
    let a = 14int;
    let q = 0int;
    let r = 196int;
    lemma_power_square(b, n, e, a, q, r);
    let e = 2 * e;
    let a = r;
    let q = 0int;
    let r = 2744int;
    lemma_power_times(b, n, e, a, q, r);
    let e = e + 1;
    let a = r;
    let q = 80int;
    let r = 89456int;
    lemma_power_square(b, n, e, a, q, r);
    let e = 2 * e;
    let a = r;
    let q = 86046int;
    let r = 11890int;
    lemma_power_square(b, n, e, a, q, r);
    let e = 2 * e;
    let a = r;
    let q = 1520int;
    let r = 10580int;
    lemma_power_square(b, n, e, a, q, r);
    let e = 2 * e;
    let a = r;
    let q = 1int;
    let r = 55119int;
    lemma_power_times(b, n, e, a, q, r);
    let e = e + 1;
    let a = r;
    let q = 32667int;
    let r = 40494int;
    lemma_power_square(b, n, e, a, q, r);
    let e = 2 * e;
    let a = r;
    let q = 17631int;
    let r = 63405int;
    lemma_power_square(b, n, e, a, q, r);
    let e = 2 * e;
    let a = r;
}

/// A power of a base, computed from the bits of the exponent.
proof fn lemma_power_93001_ta()
    ensures
        power_is(63405int, 15nat, 93001int, 37537int),
{
    let n = 93001int;
    let b = 63405int;
    lemma_power_one(b, n);
    let e = 1nat;
    let a = 63405int;
    let q = 43227int;
    let r = 39798int;
    lemma_power_square(b, n, e, a, q, r);
    let e = 2 * e;
    let a = r;
    let q = 27132int;
    let r = 89058int;
    lemma_power_times(b, n, e, a, q, r);
    let e = e + 1;
    let a = r;
    let q = 85282int;
    let r = 16082int;
    lemma_power_square(b, n, e, a, q, r);
    let e = 2 * e;
    let a = r;
    let q = 10964int;
    let r = 16246int;
    lemma_power_times(b, n, e, a, q, r);
    let e = e + 1;
    let a = r;
    let q = 2837int;
    let r = 88679int;
    lemma_power_square(b, n, e, a, q, r);
    let e = 2 * e;
    let a = r;
    let q = 60458int;
    let r = 37537int;
    lemma_power_times(b, n, e, a, q, r);
    let e = e + 1;
    let a = r;
}

/// A power of the base of the certificate, as the power of a power.
proof fn lemma_node_93001_ta()
    ensures
        power_is(14int, 1500nat, 93001int, 37537int),
{
    lemma_power_93001_root();
    lemma_power_93001_ta();
    lemma_power_of_power(14int, 100nat, 93001int, 63405int, 15nat, 37537int);
    assert(100nat * 15nat == 1500nat);
}

/// A power of a base, computed from the bits of the exponent.
proof fn lemma_power_93001_taa()
    ensures
        power_is(37537int, 2nat, 93001int, 61219int),
{
    let n = 93001int;
    let b = 37537int;
    lemma_power_one(b, n);
    let e = 1nat;
    let a = 37537int;
    let q = 15150int;
    let r = 61219int;
    lemma_power_square(b, n, e, a, q, r);
    let e = 2 * e;
    let a = r;
}

/// A power of the base of the certificate, as the power of a power.
proof fn lemma_node_93001_taa()
    ensures
        power_is(14int, 3000nat, 93001int, 61219int),
{
    lemma_node_93001_ta();
    lemma_power_93001_taa();
    lemma_power_of_power(14int, 1500nat, 93001int, 37537int, 2nat, 61219int);
    assert(1500nat * 2nat == 3000nat);
}

/// A power of a base, computed from the bits of the exponent.
proof fn lemma_power_93001_tab()
    ensures
        power_is(37537int, 31nat, 93001int, 93000int),
{
    let n = 93001int;
    let b = 37537int;
    lemma_power_one(b, n);
    let e = 1nat;
    let a = 37537int;
    let q = 15150int;
    let r = 61219int;
    lemma_power_square(b, n, e, a, q, r);
    let e = 2 * e;
    let a = r;
    let q = 24709int;
    let r = 15894int;
    lemma_power_times(b, n, e, a, q, r);
    let e = e + 1;
    let a = r;
    let q = 2716int;
    let r = 28520int;
    lemma_power_square(b, n, e, a, q, r);
    let e = 2 * e;
    let a = r;
    let q = 11511int;
    let r = 20729int;
    lemma_power_times(b, n, e, a, q, r);
    let e = e + 1;
    let a = r;
    let q = 4620int;
    let r = 26821int;
    lemma_power_square(b, n, e, a, q, r);
    let e = 2 * e;
    let a = r;
    let q = 10825int;
    let r = 44052int;
    lemma_power_times(b, n, e, a, q, r);
    let e = e + 1;
    let a = r;
    let q = 20866int;
    let r = 19838int;
    lemma_power_square(b, n, e, a, q, r);
    let e = 2 * e;
    let a = r;
    let q = 8006int;
    let r = 93000int;
    lemma_power_times(b, n, e, a, q, r);
    let e = e + 1;
    let a = r;
}

/// A power of the base of the certificate, as the power of a power.
proof fn lemma_node_93001_tab()
    ensures
        power_is(14int, 46500nat, 93001int, 93000int),
{
    lemma_node_93001_ta();
    lemma_power_93001_tab();
    lemma_power_of_power(14int, 1500nat, 93001int, 37537int, 31nat, 93000int);
    assert(1500nat * 31nat == 46500nat);
}

/// A power of a base, computed from the bits of the exponent.
proof fn lemma_power_93001_tb()
    ensures
        power_is(63405int, 62nat, 93001int, 89084int),
{
    let n = 93001int;
    let b = 63405int;
    lemma_power_one(b, n);
    let e = 1nat;
    let a = 63405int;
    let q = 43227int;
    let r = 39798int;
    lemma_power_square(b, n, e, a, q, r);
    let e = 2 * e;
    let a = r;
    let q = 27132int;
    let r = 89058int;
    lemma_power_times(b, n, e, a, q, r);
    let e = e + 1;
    let a = r;
    let q = 85282int;
    let r = 16082int;
    lemma_power_square(b, n, e, a, q, r);
    let e = 2 * e;
    let a = r;
    let q = 10964int;
    let r = 16246int;
    lemma_power_times(b, n, e, a, q, r);
    let e = e + 1;
    let a = r;
    let q = 2837int;
    let r = 88679int;
    lemma_power_square(b, n, e, a, q, r);
    let e = 2 * e;
    let a = r;
    let q = 60458int;
    let r = 37537int;
    lemma_power_times(b, n, e, a, q, r);
    let e = e + 1;
    let a = r;
    let q = 15150int;
    let r = 61219int;
    lemma_power_square(b, n, e, a, q, r);
    let e = 2 * e;
    let a = r;
    let q = 41737int;
    let r = 7958int;
    lemma_power_times(b, n, e, a, q, r);
    let e = e + 1;
    let a = r;
    let q = 680int;
    let r = 89084int;
    lemma_power_square(b, n, e, a, q, r);
    let e = 2 * e;
    let a = r;
}

/// A power of the base of the certificate, as the power of a power.
proof fn lemma_node_93001_tb()
    ensures
        power_is(14int, 6200nat, 93001int, 89084int),
{
    lemma_power_93001_root();
    lemma_power_93001_tb();
    lemma_power_of_power(14int, 100nat, 93001int, 63405int, 62nat, 89084int);
    assert(100nat * 62nat == 6200nat);
}

/// A power of a base, computed from the bits of the exponent.
proof fn lemma_power_93001_tba()
    ensures
        power_is(89084int, 3nat, 93001int, 79997int),
{
    let n = 93001int;
    let b = 89084int;
    lemma_power_one(b, n);
    let e = 1nat;
    let a = 89084int;
    let q = 85331int;
    let r = 90725int;
    lemma_power_square(b, n, e, a, q, r);
    let e = 2 * e;
    let a = r;
    let q = 86903int;
    let r = 79997int;
    lemma_power_times(b, n, e, a, q, r);
    let e = e + 1;
    let a = r;
}

/// A power of the base of the certificate, as the power of a power.
proof fn lemma_node_93001_tba()
    ensures
        power_is(14int, 18600nat, 93001int, 79997int),
{
    lemma_node_93001_tb();
    lemma_power_93001_tba();
    lemma_power_of_power(14int, 6200nat, 93001int, 89084int, 3nat, 79997int);
    assert(6200nat * 3nat == 18600nat);
}

/// A power of a base, computed from the bits of the exponent.
proof fn lemma_power_93001_tbb()
    ensures
        power_is(89084int, 5nat, 93001int, 22786int),
{
    let n = 93001int;
    let b = 89084int;
    lemma_power_one(b, n);
    let e = 1nat;
    let a = 89084int;
    let q = 85331int;
    let r = 90725int;
    lemma_power_square(b, n, e, a, q, r);
    let e = 2 * e;
    let a = r;
    let q = 88504int;
    let r = 65121int;
    lemma_power_square(b, n, e, a, q, r);
    let e = 2 * e;
    let a = r;
    let q = 62378int;
    let r = 22786int;
    lemma_power_times(b, n, e, a, q, r);
    let e = e + 1;
    let a = r;
}

/// A power of the base of the certificate, as the power of a power.
proof fn lemma_node_93001_tbb()
    ensures
        power_is(14int, 31000nat, 93001int, 22786int),
{
    lemma_node_93001_tb();
    lemma_power_93001_tbb();
    lemma_power_of_power(14int, 6200nat, 93001int, 89084int, 5nat, 22786int);
    assert(6200nat * 5nat == 31000nat);
}

/// A power of a base, computed from the bits of the exponent.
proof fn lemma_power_93001_full()
    ensures
        power_is(93000int, 2nat, 93001int, 1int),
{
    let n = 93001int;
    let b = 93000int;
    lemma_power_one(b, n);
    let e = 1nat;
    let a = 93000int;
    let q = 92999int;
    let r = 1int;
    lemma_power_square(b, n, e, a, q, r);
    let e = 2 * e;
    let a = r;
}

/// The certificate of 93001: base 14, and the prime factors of the
/// number before it.
pub proof fn lemma_certificate_93001() -> (factors: Seq<int>)
    ensures
        lucas_certificate(93001int, 14, factors),
{
    let n = 93001int;
    lemma_prime_2();
    lemma_node_93001_tab();
    lemma_power_is(14int, 46500nat, n, 93000int);
    lemma_prime_3();
    lemma_node_93001_tbb();
    lemma_power_is(14int, 31000nat, n, 22786int);
    lemma_prime_5();
    lemma_node_93001_tba();
    lemma_power_is(14int, 18600nat, n, 79997int);
    lemma_prime_31();
    lemma_node_93001_taa();
    lemma_power_is(14int, 3000nat, n, 61219int);
    lemma_power_93001_full();
    lemma_power_of_power(14int, 46500nat, n, 93000int, 2nat, 1);
    assert(46500nat * 2nat == 93000nat);
    lemma_power_is(14int, 93000nat, n, 1);
    lemma_certified_empty(n, 14);
    let s = Seq::<int>::empty();
    lemma_certified_push(n, 14, s, 2int, 46500nat);
    let s = s.push(2int);
    assert(product(s) == 2int);
    lemma_certified_push(n, 14, s, 2int, 46500nat);
    let s = s.push(2int);
    assert(product(s) == 4int);
    lemma_certified_push(n, 14, s, 2int, 46500nat);
    let s = s.push(2int);
    assert(product(s) == 8int);
    lemma_certified_push(n, 14, s, 3int, 31000nat);
    let s = s.push(3int);
    assert(product(s) == 24int);
    lemma_certified_push(n, 14, s, 5int, 18600nat);
    let s = s.push(5int);
    assert(product(s) == 120int);
    lemma_certified_push(n, 14, s, 5int, 18600nat);
    let s = s.push(5int);
    assert(product(s) == 600int);
    lemma_certified_push(n, 14, s, 5int, 18600nat);
    let s = s.push(5int);
    assert(product(s) == 3000int);
    lemma_certified_push(n, 14, s, 31int, 3000nat);
    let s = s.push(31int);
    assert(product(s) == 93000int);
    lemma_certificate(n, 14, s);
    s
}

/// 93001 is prime.
pub proof fn lemma_prime_93001()
    ensures
        is_prime(93001int),
{
    let factors = lemma_certificate_93001();
    lemma_lucas(93001int, 14, factors);
}

/// A power of a base, computed from the bits of the exponent.
proof fn lemma_power_237073_root()
    ensures
        power_is(15int, 8nat, 237073int, 131495int),
{
    let n = 237073int;
    let b = 15int;
    lemma_power_one(b, n);
    let e = 1nat;
    let a = 15int;
    let q = 0int;
    let r = 225int;
    lemma_power_square(b, n, e, a, q, r);
    let e = 2 * e;
    let a = r;
    let q = 0int;
    let r = 50625int;
    lemma_power_square(b, n, e, a, q, r);
    let e = 2 * e;
    let a = r;
    let q = 10810int;
    let r = 131495int;
    lemma_power_square(b, n, e, a, q, r);
    let e = 2 * e;
    let a = r;
}

/// A power of a base, computed from the bits of the exponent.
proof fn lemma_power_237073_ta()
    ensures
        power_is(131495int, 66nat, 237073int, 197030int),
{
    let n = 237073int;
    let b = 131495int;
    lemma_power_one(b, n);
    let e = 1nat;
    let a = 131495int;
    let q = 72935int;
    let r = 15770int;
    lemma_power_square(b, n, e, a, q, r);
    let e = 2 * e;
    let a = r;
    let q = 1049int;
    let r = 3323int;
    lemma_power_square(b, n, e, a, q, r);
    let e = 2 * e;
    let a = r;
    let q = 46int;
    let r = 136971int;
    lemma_power_square(b, n, e, a, q, r);
    let e = 2 * e;
    let a = r;
    let q = 79136int;
    let r = 45913int;
    lemma_power_square(b, n, e, a, q, r);
    let e = 2 * e;
    let a = r;
    let q = 8891int;
    let r = 187526int;
    lemma_power_square(b, n, e, a, q, r);
    let e = 2 * e;
    let a = r;
    let q = 104013int;
    let r = 57421int;
    lemma_power_times(b, n, e, a, q, r);
    let e = e + 1;
    let a = r;
    let q = 13907int;
    let r = 197030int;
    lemma_power_square(b, n, e, a, q, r);
    let e = 2 * e;
    let a = r;
}

/// A power of the base of the certificate, as the power of a power.
proof fn lemma_node_237073_ta()
    ensures
        power_is(15int, 528nat, 237073int, 197030int),
{
    lemma_power_237073_root();
    lemma_power_237073_ta();
    lemma_power_of_power(15int, 8nat, 237073int, 131495int, 66nat, 197030int);
    assert(8nat * 66nat == 528nat);
}

/// A power of a base, computed from the bits of the exponent.
proof fn lemma_power_237073_tb()
    ensures
        power_is(131495int, 449nat, 237073int, 100056int),
{
    let n = 237073int;
    let b = 131495int;
    lemma_power_one(b, n);
    let e = 1nat;
    let a = 131495int;
    let q = 72935int;
    let r = 15770int;
    lemma_power_square(b, n, e, a, q, r);
    let e = 2 * e;
    let a = r;
    let q = 8746int;
    let r = 235692int;
    lemma_power_times(b, n, e, a, q, r);
    let e = e + 1;
    let a = r;
    let q = 234319int;
    let r = 10577int;
    lemma_power_square(b, n, e, a, q, r);
    let e = 2 * e;
    let a = r;
    let q = 5866int;
    let r = 152397int;
    lemma_power_times(b, n, e, a, q, r);
    let e = e + 1;
    let a = r;
    let q = 97964int;
    let r = 226237int;
    lemma_power_square(b, n, e, a, q, r);
    let e = 2 * e;
    let a = r;
    let q = 215896int;
    let r = 67761int;
    lemma_power_square(b, n, e, a, q, r);
    let e = 2 * e;
    let a = r;
    let q = 19367int;
    let r = 160330int;
    lemma_power_square(b, n, e, a, q, r);
    let e = 2 * e;
    let a = r;
    let q = 108429int;
    let r = 120583int;
    lemma_power_square(b, n, e, a, q, r);
    let e = 2 * e;
    let a = r;
    let q = 61332int;
    let r = 98653int;
    lemma_power_square(b, n, e, a, q, r);
    let e = 2 * e;
    let a = r;
    let q = 41052int;
    let r = 93613int;
    lemma_power_square(b, n, e, a, q, r);
    let e = 2 * e;
    let a = r;
    let q = 51923int;
    let r = 100056int;
    lemma_power_times(b, n, e, a, q, r);
    let e = e + 1;
    let a = r;
}

/// A power of the base of the certificate, as the power of a power.
proof fn lemma_node_237073_tb()
    ensures
        power_is(15int, 3592nat, 237073int, 100056int),
{
    lemma_power_237073_root();
    lemma_power_237073_tb();
    lemma_power_of_power(15int, 8nat, 237073int, 131495int, 449nat, 100056int);
    assert(8nat * 449nat == 3592nat);
}

/// A power of a base, computed from the bits of the exponent.
proof fn lemma_power_237073_tba()
    ensures
        power_is(100056int, 6nat, 237073int, 224235int),
{
    let n = 237073int;
    let b = 100056int;
    lemma_power_one(b, n);
    let e = 1nat;
    let a = 100056int;
    let q = 42228int;
    let r = 84492int;
    lemma_power_square(b, n, e, a, q, r);
    let e = 2 * e;
    let a = r;
    let q = 35659int;
    let r = 145445int;
    lemma_power_times(b, n, e, a, q, r);
    let e = e + 1;
    let a = r;
    let q = 89230int;
    let r = 224235int;
    lemma_power_square(b, n, e, a, q, r);
    let e = 2 * e;
    let a = r;
}

/// A power of the base of the certificate, as the power of a power.
proof fn lemma_node_237073_tba()
    ensures
        power_is(15int, 21552nat, 237073int, 224235int),
{
    lemma_node_237073_tb();
    lemma_power_237073_tba();
    lemma_power_of_power(15int, 3592nat, 237073int, 100056int, 6nat, 224235int);
    assert(3592nat * 6nat == 21552nat);
}

/// A power of a base, computed from the bits of the exponent.
proof fn lemma_power_237073_tbb()
    ensures
        power_is(100056int, 11nat, 237073int, 63337int),
{
    let n = 237073int;
    let b = 100056int;
    lemma_power_one(b, n);
    let e = 1nat;
    let a = 100056int;
    let q = 42228int;
    let r = 84492int;
    lemma_power_square(b, n, e, a, q, r);
    let e = 2 * e;
    let a = r;
    let q = 30112int;
    let r = 155888int;
    lemma_power_square(b, n, e, a, q, r);
    let e = 2 * e;
    let a = r;
    let q = 65792int;
    let r = 22912int;
    lemma_power_times(b, n, e, a, q, r);
    let e = e + 1;
    let a = r;
    let q = 2214int;
    let r = 80122int;
    lemma_power_square(b, n, e, a, q, r);
    let e = 2 * e;
    let a = r;
    let q = 33815int;
    let r = 63337int;
    lemma_power_times(b, n, e, a, q, r);
    let e = e + 1;
    let a = r;
}

/// A power of the base of the certificate, as the power of a power.
proof fn lemma_node_237073_tbb()
    ensures
        power_is(15int, 39512nat, 237073int, 63337int),
{
    lemma_node_237073_tb();
    lemma_power_237073_tbb();
    lemma_power_of_power(15int, 3592nat, 237073int, 100056int, 11nat, 63337int);
    assert(3592nat * 11nat == 39512nat);
}

/// A power of a base, computed from the bits of the exponent.
proof fn lemma_power_237073_tbba()
    ensures
        power_is(63337int, 2nat, 237073int, 63336int),
{
    let n = 237073int;
    let b = 63337int;
    lemma_power_one(b, n);
    let e = 1nat;
    let a = 63337int;
    let q = 16921int;
    let r = 63336int;
    lemma_power_square(b, n, e, a, q, r);
    let e = 2 * e;
    let a = r;
}

/// A power of the base of the certificate, as the power of a power.
proof fn lemma_node_237073_tbba()
    ensures
        power_is(15int, 79024nat, 237073int, 63336int),
{
    lemma_node_237073_tbb();
    lemma_power_237073_tbba();
    lemma_power_of_power(15int, 39512nat, 237073int, 63337int, 2nat, 63336int);
    assert(39512nat * 2nat == 79024nat);
}

/// A power of a base, computed from the bits of the exponent.
proof fn lemma_power_237073_tbbb()
    ensures
        power_is(63337int, 3nat, 237073int, 237072int),
{
    let n = 237073int;
    let b = 63337int;
    lemma_power_one(b, n);
    let e = 1nat;
    let a = 63337int;
    let q = 16921int;
    let r = 63336int;
    lemma_power_square(b, n, e, a, q, r);
    let e = 2 * e;
    let a = r;
    let q = 16920int;
    let r = 237072int;
    lemma_power_times(b, n, e, a, q, r);
    let e = e + 1;
    let a = r;
}

/// A power of the base of the certificate, as the power of a power.
proof fn lemma_node_237073_tbbb()
    ensures
        power_is(15int, 118536nat, 237073int, 237072int),
{
    lemma_node_237073_tbb();
    lemma_power_237073_tbbb();
    lemma_power_of_power(15int, 39512nat, 237073int, 63337int, 3nat, 237072int);
    assert(39512nat * 3nat == 118536nat);
}

/// A power of a base, computed from the bits of the exponent.
proof fn lemma_power_237073_full()
    ensures
        power_is(237072int, 2nat, 237073int, 1int),
{
    let n = 237073int;
    let b = 237072int;
    lemma_power_one(b, n);
    let e = 1nat;
    let a = 237072int;
    let q = 237071int;
    let r = 1int;
    lemma_power_square(b, n, e, a, q, r);
    let e = 2 * e;
    let a = r;
}

/// The certificate of 237073: base 15, and the prime factors of the
/// number before it.
pub proof fn lemma_certificate_237073() -> (factors: Seq<int>)
    ensures
        lucas_certificate(237073int, 15, factors),
{
    let n = 237073int;
    lemma_prime_2();
    lemma_node_237073_tbbb();
    lemma_power_is(15int, 118536nat, n, 237072int);
    lemma_prime_3();
    lemma_node_237073_tbba();
    lemma_power_is(15int, 79024nat, n, 63336int);
    lemma_prime_11();
    lemma_node_237073_tba();
    lemma_power_is(15int, 21552nat, n, 224235int);
    lemma_prime_449();
    lemma_node_237073_ta();
    lemma_power_is(15int, 528nat, n, 197030int);
    lemma_power_237073_full();
    lemma_power_of_power(15int, 118536nat, n, 237072int, 2nat, 1);
    assert(118536nat * 2nat == 237072nat);
    lemma_power_is(15int, 237072nat, n, 1);
    lemma_certified_empty(n, 15);
    let s = Seq::<int>::empty();
    lemma_certified_push(n, 15, s, 2int, 118536nat);
    let s = s.push(2int);
    assert(product(s) == 2int);
    lemma_certified_push(n, 15, s, 2int, 118536nat);
    let s = s.push(2int);
    assert(product(s) == 4int);
    lemma_certified_push(n, 15, s, 2int, 118536nat);
    let s = s.push(2int);
    assert(product(s) == 8int);
    lemma_certified_push(n, 15, s, 2int, 118536nat);
    let s = s.push(2int);
    assert(product(s) == 16int);
    lemma_certified_push(n, 15, s, 3int, 79024nat);
    let s = s.push(3int);
    assert(product(s) == 48int);
    lemma_certified_push(n, 15, s, 11int, 21552nat);
    let s = s.push(11int);
    assert(product(s) == 528int);
    lemma_certified_push(n, 15, s, 449int, 528nat);
    let s = s.push(449int);
    assert(product(s) == 237072int);
    lemma_certificate(n, 15, s);
    s
}

/// 237073 is prime.
pub proof fn lemma_prime_237073()
    ensures
        is_prime(237073int),
{
    let factors = lemma_certificate_237073();
    lemma_lucas(237073int, 15, factors);
}

/// A power of a base, computed from the bits of the exponent.
proof fn lemma_power_1593227_root()
    ensures
        power_is(2int, 1nat, 1593227int, 2int),
{
    let n = 1593227int;
    let b = 2int;
    lemma_power_one(b, n);
    let e = 1nat;
    let a = 2int;
}

/// A power of a base, computed from the bits of the exponent.
proof fn lemma_power_1593227_ta()
    ensures
        power_is(2int, 38nat, 1593227int, 45861int),
{
    let n = 1593227int;
    let b = 2int;
    lemma_power_one(b, n);
    let e = 1nat;
    let a = 2int;
    let q = 0int;
    let r = 4int;
    lemma_power_square(b, n, e, a, q, r);
    let e = 2 * e;
    let a = r;
    let q = 0int;
    let r = 16int;
    lemma_power_square(b, n, e, a, q, r);
    let e = 2 * e;
    let a = r;
    let q = 0int;
    let r = 256int;
    lemma_power_square(b, n, e, a, q, r);
    let e = 2 * e;
    let a = r;
    let q = 0int;
    let r = 512int;
    lemma_power_times(b, n, e, a, q, r);
    let e = e + 1;
    let a = r;
    let q = 0int;
    let r = 262144int;
    lemma_power_square(b, n, e, a, q, r);
    let e = 2 * e;
    let a = r;
    let q = 0int;
    let r = 524288int;
    lemma_power_times(b, n, e, a, q, r);
    let e = e + 1;
    let a = r;
    let q = 172529int;
    let r = 45861int;
    lemma_power_square(b, n, e, a, q, r);
    let e = 2 * e;
    let a = r;
}

/// A power of the base of the certificate, as the power of a power.
proof fn lemma_node_1593227_ta()
    ensures
        power_is(2int, 38nat, 1593227int, 45861int),
{
    lemma_power_1593227_root();
    lemma_power_1593227_ta();
    lemma_power_of_power(2int, 1nat, 1593227int, 2int, 38nat, 45861int);
    assert(1nat * 38nat == 38nat);
}

/// A power of a base, computed from the bits of the exponent.
proof fn lemma_power_1593227_tb()
    ensures
        power_is(2int, 41927nat, 1593227int, 347988int),
{
    let n = 1593227int;
    let b = 2int;
    lemma_power_one(b, n);
    let e = 1nat;
    let a = 2int;
    let q = 0int;
    let r = 4int;
    lemma_power_square(b, n, e, a, q, r);
    let e = 2 * e;
    let a = r;
    let q = 0int;
    let r = 16int;
    lemma_power_square(b, n, e, a, q, r);
    let e = 2 * e;
    let a = r;
    let q = 0int;
    let r = 32int;
    lemma_power_times(b, n, e, a, q, r);
    let e = e + 1;
    let a = r;
    let q = 0int;
    let r = 1024int;
    lemma_power_square(b, n, e, a, q, r);
    let e = 2 * e;
    let a = r;
    let q = 0int;
    let r = 1048576int;
    lemma_power_square(b, n, e, a, q, r);
    let e = 2 * e;
    let a = r;
    let q = 690116int;
    let r = 183444int;
    lemma_power_square(b, n, e, a, q, r);
    let e = 2 * e;
    let a = r;
    let q = 21121int;
    let r = 1153669int;
    lemma_power_square(b, n, e, a, q, r);
    let e = 2 * e;
    let a = r;
    let q = 1int;
    let r = 714111int;
    lemma_power_times(b, n, e, a, q, r);
    let e = e + 1;
    let a = r;
    let q = 320076int;
    let r = 795069int;
    lemma_power_square(b, n, e, a, q, r);
    let e = 2 * e;
    let a = r;
    let q = 0int;
    let r = 1590138int;
    lemma_power_times(b, n, e, a, q, r);
    let e = e + 1;
    let a = r;
    let q = 1587054int;
    let r = 1575786int;
    lemma_power_square(b, n, e, a, q, r);
    let e = 2 * e;
    let a = r;
    let q = 1int;
    let r = 1558345int;
    lemma_power_times(b, n, e, a, q, r);
    let e = e + 1;
    let a = r;
    let q = 1524226int;
    let r = 1121723int;
    lemma_power_square(b, n, e, a, q, r);
    let e = 2 * e;
    let a = r;
    let q = 1int;
    let r = 650219int;
    lemma_power_times(b, n, e, a, q, r);
    let e = e + 1;
    let a = r;
    let q = 265363int;
    let r = 1251560int;
    lemma_power_square(b, n, e, a, q, r);
    let e = 2 * e;
    let a = r;
    let q = 983163int;
    let r = 596599int;
    lemma_power_square(b, n, e, a, q, r);
    let e = 2 * e;
    let a = r;
    let q = 223402int;
    let r = 268547int;
    lemma_power_square(b, n, e, a, q, r);
    let e = 2 * e;
    let a = r;
    let q = 45265int;
    let r = 71054int;
    lemma_power_square(b, n, e, a, q, r);
    let e = 2 * e;
    let a = r;
    let q = 0int;
    let r = 142108int;
    lemma_power_times(b, n, e, a, q, r);
    let e = e + 1;
    let a = r;
    let q = 12675int;
    let r = 531439int;
    lemma_power_square(b, n, e, a, q, r);
    let e = 2 * e;
    let a = r;
    let q = 0int;
    let r = 1062878int;
    lemma_power_times(b, n, e, a, q, r);
    let e = e + 1;
    let a = r;
    let q = 709070int;
    let r = 173994int;
    lemma_power_square(b, n, e, a, q, r);
    let e = 2 * e;
    let a = r;
    let q = 0int;
    let r = 347988int;
    lemma_power_times(b, n, e, a, q, r);
    let e = e + 1;
    let a = r;
}

/// A power of the base of the certificate, as the power of a power.
proof fn lemma_node_1593227_tb()
    ensures
        power_is(2int, 41927nat, 1593227int, 347988int),
{
    lemma_power_1593227_root();
    lemma_power_1593227_tb();
    lemma_power_of_power(2int, 1nat, 1593227int, 2int, 41927nat, 347988int);
    assert(1nat * 41927nat == 41927nat);
}

/// A power of a base, computed from the bits of the exponent.
proof fn lemma_power_1593227_tba()
    ensures
        power_is(347988int, 2nat, 1593227int, 836782int),
{
    let n = 1593227int;
    let b = 347988int;
    lemma_power_one(b, n);
    let e = 1nat;
    let a = 347988int;
    let q = 76006int;
    let r = 836782int;
    lemma_power_square(b, n, e, a, q, r);
    let e = 2 * e;
    let a = r;
}

/// A power of the base of the certificate, as the power of a power.
proof fn lemma_node_1593227_tba()
    ensures
        power_is(2int, 83854nat, 1593227int, 836782int),
{
    lemma_node_1593227_tb();
    lemma_power_1593227_tba();
    lemma_power_of_power(2int, 41927nat, 1593227int, 347988int, 2nat, 836782int);
    assert(41927nat * 2nat == 83854nat);
}

/// A power of a base, computed from the bits of the exponent.
proof fn lemma_power_1593227_tbb()
    ensures
        power_is(347988int, 19nat, 1593227int, 1593226int),
{
    let n = 1593227int;
    let b = 347988int;
    lemma_power_one(b, n);
    let e = 1nat;
    let a = 347988int;
    let q = 76006int;
    let r = 836782int;
    lemma_power_square(b, n, e, a, q, r);
    let e = 2 * e;
    let a = r;
    let q = 439487int;
    let r = 1560975int;
    lemma_power_square(b, n, e, a, q, r);
    let e = 2 * e;
    let a = r;
    let q = 1529375int;
    let r = 1407500int;
    lemma_power_square(b, n, e, a, q, r);
    let e = 2 * e;
    let a = r;
    let q = 307422int;
    let r = 79206int;
    lemma_power_times(b, n, e, a, q, r);
    let e = e + 1;
    let a = r;
    let q = 3937int;
    let r = 1055737int;
    lemma_power_square(b, n, e, a, q, r);
    let e = 2 * e;
    let a = r;
    let q = 230590int;
    let r = 1593226int;
    lemma_power_times(b, n, e, a, q, r);
    let e = e + 1;
    let a = r;
}

/// A power of the base of the certificate, as the power of a power.
proof fn lemma_node_1593227_tbb()
    ensures
        power_is(2int, 796613nat, 1593227int, 1593226int),
{
    lemma_node_1593227_tb();
    lemma_power_1593227_tbb();
    lemma_power_of_power(2int, 41927nat, 1593227int, 347988int, 19nat, 1593226int);
    assert(41927nat * 19nat == 796613nat);
}

/// A power of a base, computed from the bits of the exponent.
proof fn lemma_power_1593227_full()
    ensures
        power_is(1593226int, 2nat, 1593227int, 1int),
{
    let n = 1593227int;
    let b = 1593226int;
    lemma_power_one(b, n);
    let e = 1nat;
    let a = 1593226int;
    let q = 1593225int;
    let r = 1int;
    lemma_power_square(b, n, e, a, q, r);
    let e = 2 * e;
    let a = r;
}

/// The certificate of 1593227: base 2, and the prime factors of the
/// number before it.
pub proof fn lemma_certificate_1593227() -> (factors: Seq<int>)
    ensures
        lucas_certificate(1593227int, 2, factors),
{
    let n = 1593227int;
    lemma_prime_2();
    lemma_node_1593227_tbb();
    lemma_power_is(2int, 796613nat, n, 1593226int);
    lemma_prime_19();
    lemma_node_1593227_tba();
    lemma_power_is(2int, 83854nat, n, 836782int);
    lemma_prime_41927();
    lemma_node_1593227_ta();
    lemma_power_is(2int, 38nat, n, 45861int);
    lemma_power_1593227_full();
    lemma_power_of_power(2int, 796613nat, n, 1593226int, 2nat, 1);
    assert(796613nat * 2nat == 1593226nat);
    lemma_power_is(2int, 1593226nat, n, 1);
    lemma_certified_empty(n, 2);
    let s = Seq::<int>::empty();
    lemma_certified_push(n, 2, s, 2int, 796613nat);
    let s = s.push(2int);
    assert(product(s) == 2int);
    lemma_certified_push(n, 2, s, 19int, 83854nat);
    let s = s.push(19int);
    assert(product(s) == 38int);
    lemma_certified_push(n, 2, s, 41927int, 38nat);
    let s = s.push(41927int);
    assert(product(s) == 1593226int);
    lemma_certificate(n, 2, s);
    s
}

/// 1593227 is prime.
pub proof fn lemma_prime_1593227()
    ensures
        is_prime(1593227int),
{
    let factors = lemma_certificate_1593227();
    lemma_lucas(1593227int, 2, factors);
}

/// A power of a base, computed from the bits of the exponent.
proof fn lemma_power_405928799_root()
    ensures
        power_is(22int, 1nat, 405928799int, 22int),
{
    let n = 405928799int;
    let b = 22int;
    lemma_power_one(b, n);
    let e = 1nat;
    let a = 22int;
}

/// A power of a base, computed from the bits of the exponent.
proof fn lemma_power_405928799_ta()
    ensures
        power_is(22int, 40601nat, 405928799int, 63930760int),
{
    let n = 405928799int;
    let b = 22int;
    lemma_power_one(b, n);
    let e = 1nat;
    let a = 22int;
    let q = 0int;
    let r = 484int;
    lemma_power_square(b, n, e, a, q, r);
    let e = 2 * e;
    let a = r;
    let q = 0int;
    let r = 234256int;
    lemma_power_square(b, n, e, a, q, r);
    let e = 2 * e;
    let a = r;
    let q = 135int;
    let r = 75485671int;
    lemma_power_square(b, n, e, a, q, r);
    let e = 2 * e;
    let a = r;
    let q = 4int;
    let r = 36969566int;
    lemma_power_times(b, n, e, a, q, r);
    let e = e + 1;
    let a = r;
    let q = 3366966int;
    let r = 345574522int;
    lemma_power_square(b, n, e, a, q, r);
    let e = 2 * e;
    let a = r;
    let q = 18int;
    let r = 295921102int;
    lemma_power_times(b, n, e, a, q, r);
    let e = e + 1;
    let a = r;
    let q = 215725759int;
    let r = 344660963int;
    lemma_power_square(b, n, e, a, q, r);
    let e = 2 * e;
    let a = r;
    let q = 18int;
    let r = 275822804int;
    lemma_power_times(b, n, e, a, q, r);
    let e = e + 1;
    let a = r;
    let q = 187417644int;
    let r = 66092860int;
    lemma_power_square(b, n, e, a, q, r);
    let e = 2 * e;
    let a = r;
    let q = 3int;
    let r = 236256523int;
    lemma_power_times(b, n, e, a, q, r);
    let e = e + 1;
    let a = r;
    let q = 137504766int;
    let r = 140893495int;
    lemma_power_square(b, n, e, a, q, r);
    let e = 2 * e;
    let a = r;
    let q = 48902607int;
    let r = 405836032int;
    lemma_power_square(b, n, e, a, q, r);
    let e = 2 * e;
    let a = r;
    let q = 21int;
    let r = 403887925int;
    lemma_power_times(b, n, e, a, q, r);
    let e = e + 1;
    let a = r;
    let q = 401857311int;
    let r = 337206136int;
    lemma_power_square(b, n, e, a, q, r);
    let e = 2 * e;
    let a = r;
    let q = 280118036int;
    let r = 224331732int;
    lemma_power_square(b, n, e, a, q, r);
    let e = 2 * e;
    let a = r;
    let q = 123974268int;
    let r = 265975692int;
    lemma_power_square(b, n, e, a, q, r);
    let e = 2 * e;
    let a = r;
    let q = 14int;
    let r = 168462038int;
    lemma_power_times(b, n, e, a, q, r);
    let e = e + 1;
    let a = r;
    let q = 69912404int;
    let r = 56190648int;
    lemma_power_square(b, n, e, a, q, r);
    let e = 2 * e;
    let a = r;
    let q = 3int;
    let r = 18407859int;
    lemma_power_times(b, n, e, a, q, r);
    let e = e + 1;
    let a = r;
    let q = 834750int;
    let r = 207998631int;
    lemma_power_square(b, n, e, a, q, r);
    let e = 2 * e;
    let a = r;
    let q = 106578864int;
    let r = 235569825int;
    lemma_power_square(b, n, e, a, q, r);
    let e = 2 * e;
    let a = r;
    let q = 136706591int;
    let r = 150516416int;
    lemma_power_square(b, n, e, a, q, r);
    let e = 2 * e;
    let a = r;
    let q = 8int;
    let r = 63930760int;
    lemma_power_times(b, n, e, a, q, r);
    let e = e + 1;
    let a = r;
}

/// A power of the base of the certificate, as the power of a power.
proof fn lemma_node_405928799_ta()
    ensures
        power_is(22int, 40601nat, 405928799int, 63930760int),
{
    lemma_power_405928799_root();
    lemma_power_405928799_ta();
    lemma_power_of_power(22int, 1nat, 405928799int, 22int, 40601nat, 63930760int);
    assert(1nat * 40601nat == 40601nat);
}

/// A power of a base, computed from the bits of the exponent.
proof fn lemma_power_405928799_taa()
    ensures
        power_is(63930760int, 2nat, 405928799int, 61847818int),
{
    let n = 405928799int;
    let b = 63930760int;
    lemma_power_one(b, n);
    let e = 1nat;
    let a = 63930760int;
    let q = 10068618int;
    let r = 61847818int;
    lemma_power_square(b, n, e, a, q, r);
    let e = 2 * e;
    let a = r;
}

/// A power of the base of the certificate, as the power of a power.
proof fn lemma_node_405928799_taa()
    ensures
        power_is(22int, 81202nat, 405928799int, 61847818int),
{
    lemma_node_405928799_ta();
    lemma_power_405928799_taa();
    lemma_power_of_power(22int, 40601nat, 405928799int, 63930760int, 2nat, 61847818int);
    assert(40601nat * 2nat == 81202nat);
}

/// A power of a base, computed from the bits of the exponent.
proof fn lemma_power_405928799_tab()
    ensures
        power_is(63930760int, 4999nat, 405928799int, 405928798int),
{
    let n = 405928799int;
    let b = 63930760int;
    lemma_power_one(b, n);
    let e = 1nat;
    let a = 63930760int;
    let q = 10068618int;
    let r = 61847818int;
    lemma_power_square(b, n, e, a, q, r);
    let e = 2 * e;
    let a = r;
    let q = 9423210int;
    let r = 273336334int;
    lemma_power_square(b, n, e, a, q, r);
    let e = 2 * e;
    let a = r;
    let q = 184053833int;
    let r = 103522989int;
    lemma_power_square(b, n, e, a, q, r);
    let e = 2 * e;
    let a = r;
    let q = 16304099int;
    let r = 38394539int;
    lemma_power_times(b, n, e, a, q, r);
    let e = e + 1;
    let a = r;
    let q = 3631525int;
    let r = 43234046int;
    lemma_power_square(b, n, e, a, q, r);
    let e = 2 * e;
    let a = r;
    let q = 6809039int;
    let r = 395040799int;
    lemma_power_times(b, n, e, a, q, r);
    let e = e + 1;
    let a = r;
    let q = 384444841int;
    let r = 285682442int;
    lemma_power_square(b, n, e, a, q, r);
    let e = 2 * e;
    let a = r;
    let q = 44992855int;
    let r = 41984775int;
    lemma_power_times(b, n, e, a, q, r);
    let e = e + 1;
    let a = r;
    let q = 4342439int;
    let r = 283799864int;
    lemma_power_square(b, n, e, a, q, r);
    let e = 2 * e;
    let a = r;
    let q = 198415000int;
    let r = 152833496int;
    lemma_power_square(b, n, e, a, q, r);
    let e = 2 * e;
    let a = r;
    let q = 57542301int;
    let r = 362955517int;
    lemma_power_square(b, n, e, a, q, r);
    let e = 2 * e;
    let a = r;
    let q = 324531562int;
    let r = 120483251int;
    lemma_power_square(b, n, e, a, q, r);
    let e = 2 * e;
    let a = r;
    let q = 35760492int;
    let r = 202319893int;
    lemma_power_square(b, n, e, a, q, r);
    let e = 2 * e;
    let a = r;
    let q = 31863875int;
    let r = 12372555int;
    lemma_power_times(b, n, e, a, q, r);
    let e = e + 1;
    let a = r;
    let q = 377110int;
    let r = 307837135int;
    lemma_power_square(b, n, e, a, q, r);
    let e = 2 * e;
    let a = r;
    let q = 48482054int;
    let r = 43499454int;
    lemma_power_times(b, n, e, a, q, r);
    let e = e + 1;
    let a = r;
    let q = 4661414int;
    let r = 311636330int;
    lemma_power_square(b, n, e, a, q, r);
    let e = 2 * e;
    let a = r;
    let q = 49080398int;
    let r = 405928798int;
    lemma_power_times(b, n, e, a, q, r);
    let e = e + 1;
    let a = r;
}

/// A power of the base of the certificate, as the power of a power.
proof fn lemma_node_405928799_tab()
    ensures
        power_is(22int, 202964399nat, 405928799int, 405928798int),
{
    lemma_node_405928799_ta();
    lemma_power_405928799_tab();
    lemma_power_of_power(22int, 40601nat, 405928799int, 63930760int, 4999nat, 405928798int);
    assert(40601nat * 4999nat == 202964399nat);
}

/// A power of a base, computed from the bits of the exponent.
proof fn lemma_power_405928799_tb()
    ensures
        power_is(22int, 9998nat, 405928799int, 386086986int),
{
    let n = 405928799int;
    let b = 22int;
    lemma_power_one(b, n);
    let e = 1nat;
    let a = 22int;
    let q = 0int;
    let r = 484int;
    lemma_power_square(b, n, e, a, q, r);
    let e = 2 * e;
    let a = r;
    let q = 0int;
    let r = 234256int;
    lemma_power_square(b, n, e, a, q, r);
    let e = 2 * e;
    let a = r;
    let q = 135int;
    let r = 75485671int;
    lemma_power_square(b, n, e, a, q, r);
    let e = 2 * e;
    let a = r;
    let q = 4int;
    let r = 36969566int;
    lemma_power_times(b, n, e, a, q, r);
    let e = e + 1;
    let a = r;
    let q = 3366966int;
    let r = 345574522int;
    lemma_power_square(b, n, e, a, q, r);
    let e = 2 * e;
    let a = r;
    let q = 18int;
    let r = 295921102int;
    lemma_power_times(b, n, e, a, q, r);
    let e = e + 1;
    let a = r;
    let q = 215725759int;
    let r = 344660963int;
    lemma_power_square(b, n, e, a, q, r);
    let e = 2 * e;
    let a = r;
    let q = 18int;
    let r = 275822804int;
    lemma_power_times(b, n, e, a, q, r);
    let e = e + 1;
    let a = r;
    let q = 187417644int;
    let r = 66092860int;
    lemma_power_square(b, n, e, a, q, r);
    let e = 2 * e;
    let a = r;
    let q = 10761163int;
    let r = 170546363int;
    lemma_power_square(b, n, e, a, q, r);
    let e = 2 * e;
    let a = r;
    let q = 71653112int;
    let r = 233755281int;
    lemma_power_square(b, n, e, a, q, r);
    let e = 2 * e;
    let a = r;
    let q = 134608659int;
    let r = 112518420int;
    lemma_power_square(b, n, e, a, q, r);
    let e = 2 * e;
    let a = r;
    let q = 31188708int;
    let r = 58494708int;
    lemma_power_square(b, n, e, a, q, r);
    let e = 2 * e;
    let a = r;
    let q = 3int;
    let r = 69097179int;
    lemma_power_times(b, n, e, a, q, r);
    let e = e + 1;
    let a = r;
    let q = 11761718int;
    let r = 83841359int;
    lemma_power_square(b, n, e, a, q, r);
    let e = 2 * e;
    let a = r;
    let q = 4int;
    let r = 220794702int;
    lemma_power_times(b, n, e, a, q, r);
    let e = e + 1;
    let a = r;
    let q = 120095693int;
    let r = 6706097int;
    lemma_power_square(b, n, e, a, q, r);
    let e = 2 * e;
    let a = r;
    let q = 0int;
    let r = 147534134int;
    lemma_power_times(b, n, e, a, q, r);
    let e = e + 1;
    let a = r;
    let q = 53621030int;
    let r = 386086986int;
    lemma_power_square(b, n, e, a, q, r);
    let e = 2 * e;
    let a = r;
}

/// A power of the base of the certificate, as the power of a power.
proof fn lemma_node_405928799_tb()
    ensures
        power_is(22int, 9998nat, 405928799int, 386086986int),
{
    lemma_power_405928799_root();
    lemma_power_405928799_tb();
    lemma_power_of_power(22int, 1nat, 405928799int, 22int, 9998nat, 386086986int);
    assert(1nat * 9998nat == 9998nat);
}

/// A power of a base, computed from the bits of the exponent.
proof fn lemma_power_405928799_tba()
    ensures
        power_is(386086986int, 11nat, 405928799int, 147917081int),
{
    let n = 405928799int;
    let b = 386086986int;
    lemma_power_one(b, n);
    let e = 1nat;
    let a = 386086986int;
    let q = 367215041int;
    let r = 190698437int;
    lemma_power_square(b, n, e, a, q, r);
    let e = 2 * e;
    let a = r;
    let q = 89586878int;
    let r = 81543447int;
    lemma_power_square(b, n, e, a, q, r);
    let e = 2 * e;
    let a = r;
    let q = 77557600int;
    let r = 258958342int;
    lemma_power_times(b, n, e, a, q, r);
    let e = e + 1;
    let a = r;
    let q = 165199963int;
    let r = 315954527int;
    lemma_power_square(b, n, e, a, q, r);
    let e = 2 * e;
    let a = r;
    let q = 300510659int;
    let r = 147917081int;
    lemma_power_times(b, n, e, a, q, r);
    let e = e + 1;
    let a = r;
}

/// A power of the base of the certificate, as the power of a power.
proof fn lemma_node_405928799_tba()
    ensures
        power_is(22int, 109978nat, 405928799int, 147917081int),
{
    lemma_node_405928799_tb();
    lemma_power_405928799_tba();
    lemma_power_of_power(22int, 9998nat, 405928799int, 386086986int, 11nat, 147917081int);
    assert(9998nat * 11nat == 109978nat);
}

/// A power of a base, computed from the bits of the exponent.
proof fn lemma_power_405928799_tbb()
    ensures
        power_is(386086986int, 3691nat, 405928799int, 215859951int),
{
    let n = 405928799int;
    let b = 386086986int;
    lemma_power_one(b, n);
    let e = 1nat;
    let a = 386086986int;
    let q = 367215041int;
    let r = 190698437int;
    lemma_power_square(b, n, e, a, q, r);
    let e = 2 * e;
    let a = r;
    let q = 181377091int;
    let r = 60497173int;
    lemma_power_times(b, n, e, a, q, r);
    let e = e + 1;
    let a = r;
    let q = 9016132int;
    let r = 306606461int;
    lemma_power_square(b, n, e, a, q, r);
    let e = 2 * e;
    let a = r;
    let q = 291619527int;
    let r = 55558473int;
    lemma_power_times(b, n, e, a, q, r);
    let e = e + 1;
    let a = r;
    let q = 7604151int;
    let r = 39247080int;
    lemma_power_square(b, n, e, a, q, r);
    let e = 2 * e;
    let a = r;
    let q = 3794589int;
    let r = 333057789int;
    lemma_power_square(b, n, e, a, q, r);
    let e = 2 * e;
    let a = r;
    let q = 273268344int;
    let r = 128929665int;
    lemma_power_square(b, n, e, a, q, r);
    let e = 2 * e;
    let a = r;
    let q = 122627578int;
    let r = 304020868int;
    lemma_power_times(b, n, e, a, q, r);
    let e = e + 1;
    let a = r;
    let q = 227696799int;
    let r = 25259023int;
    lemma_power_square(b, n, e, a, q, r);
    let e = 2 * e;
    let a = r;
    let q = 24024361int;
    let r = 51902239int;
    lemma_power_times(b, n, e, a, q, r);
    let e = e + 1;
    let a = r;
    let q = 6636243int;
    let r = 262350964int;
    lemma_power_square(b, n, e, a, q, r);
    let e = 2 * e;
    let a = r;
    let q = 169556898int;
    let r = 344423794int;
    lemma_power_square(b, n, e, a, q, r);
    let e = 2 * e;
    let a = r;
    let q = 327588347int;
    let r = 268039631int;
    lemma_power_times(b, n, e, a, q, r);
    let e = e + 1;
    let a = r;
    let q = 176989767int;
    let r = 233016328int;
    lemma_power_square(b, n, e, a, q, r);
    let e = 2 * e;
    let a = r;
    let q = 133758947int;
    let r = 403388931int;
    lemma_power_square(b, n, e, a, q, r);
    let e = 2 * e;
    let a = r;
    let q = 383671266int;
    let r = 337362432int;
    lemma_power_times(b, n, e, a, q, r);
    let e = e + 1;
    let a = r;
    let q = 280377767int;
    let r = 300342791int;
    lemma_power_square(b, n, e, a, q, r);
    let e = 2 * e;
    let a = r;
    let q = 285662025int;
    let r = 215859951int;
    lemma_power_times(b, n, e, a, q, r);
    let e = e + 1;
    let a = r;
}

/// A power of the base of the certificate, as the power of a power.
proof fn lemma_node_405928799_tbb()
    ensures
        power_is(22int, 36902618nat, 405928799int, 215859951int),
{
    lemma_node_405928799_tb();
    lemma_power_405928799_tbb();
    lemma_power_of_power(22int, 9998nat, 405928799int, 386086986int, 3691nat, 215859951int);
    assert(9998nat * 3691nat == 36902618nat);
}

/// A power of a base, computed from the bits of the exponent.
proof fn lemma_power_405928799_full()
    ensures
        power_is(405928798int, 2nat, 405928799int, 1int),
{
    let n = 405928799int;
    let b = 405928798int;
    lemma_power_one(b, n);
    let e = 1nat;
    let a = 405928798int;
    let q = 405928797int;
    let r = 1int;
    lemma_power_square(b, n, e, a, q, r);
    let e = 2 * e;
    let a = r;
}

/// The certificate of 405928799: base 22, and the prime factors of the
/// number before it.
pub proof fn lemma_certificate_405928799() -> (factors: Seq<int>)
    ensures
        lucas_certificate(405928799int, 22, factors),
{
    let n = 405928799int;
    lemma_prime_2();
    lemma_node_405928799_tab();
    lemma_power_is(22int, 202964399nat, n, 405928798int);
    lemma_prime_11();
    lemma_node_405928799_tbb();
    lemma_power_is(22int, 36902618nat, n, 215859951int);
    lemma_prime_3691();
    lemma_node_405928799_tba();
    lemma_power_is(22int, 109978nat, n, 147917081int);
    lemma_prime_4999();
    lemma_node_405928799_taa();
    lemma_power_is(22int, 81202nat, n, 61847818int);
    lemma_power_405928799_full();
    lemma_power_of_power(22int, 202964399nat, n, 405928798int, 2nat, 1);
    assert(202964399nat * 2nat == 405928798nat);
    lemma_power_is(22int, 405928798nat, n, 1);
    lemma_certified_empty(n, 22);
    let s = Seq::<int>::empty();
    lemma_certified_push(n, 22, s, 2int, 202964399nat);
    let s = s.push(2int);
    assert(product(s) == 2int);
    lemma_certified_push(n, 22, s, 11int, 36902618nat);
    let s = s.push(11int);
    assert(product(s) == 22int);
    lemma_certified_push(n, 22, s, 3691int, 109978nat);
    let s = s.push(3691int);
    assert(product(s) == 81202int);
    lemma_certified_push(n, 22, s, 4999int, 81202nat);
    let s = s.push(4999int);
    assert(product(s) == 405928798int);
    lemma_certificate(n, 22, s);
    s
}

/// 405928799 is prime.
pub proof fn lemma_prime_405928799()
    ensures
        is_prime(405928799int),
{
    let factors = lemma_certificate_405928799();
    lemma_lucas(405928799int, 22, factors);
}

/// A power of a base, computed from the bits of the exponent.
proof fn lemma_power_639533339_root()
    ensures
        power_is(2int, 1nat, 639533339int, 2int),
{
    let n = 639533339int;
    let b = 2int;
    lemma_power_one(b, n);
    let e = 1nat;
    let a = 2int;
}

/// A power of a base, computed from the bits of the exponent.
proof fn lemma_power_639533339_ta()
    ensures
        power_is(2int, 195337nat, 639533339int, 123586100int),
{
    let n = 639533339int;
    let b = 2int;
    lemma_power_one(b, n);
    let e = 1nat;
    let a = 2int;
    let q = 0int;
    let r = 4int;
    lemma_power_square(b, n, e, a, q, r);
    let e = 2 * e;
    let a = r;
    let q = 0int;
    let r = 16int;
    lemma_power_square(b, n, e, a, q, r);
    let e = 2 * e;
    let a = r;
    let q = 0int;
    let r = 32int;
    lemma_power_times(b, n, e, a, q, r);
    let e = e + 1;
    let a = r;
    let q = 0int;
    let r = 1024int;
    lemma_power_square(b, n, e, a, q, r);
    let e = 2 * e;
    let a = r;
    let q = 0int;
    let r = 2048int;
    lemma_power_times(b, n, e, a, q, r);
    let e = e + 1;
    let a = r;
    let q = 0int;
    let r = 4194304int;
    lemma_power_square(b, n, e, a, q, r);
    let e = 2 * e;
    let a = r;
    let q = 0int;
    let r = 8388608int;
    lemma_power_times(b, n, e, a, q, r);
    let e = e + 1;
    let a = r;
    let q = 110031int;
    let r = 251354155int;
    lemma_power_square(b, n, e, a, q, r);
    let e = 2 * e;
    let a = r;
    let q = 0int;
    let r = 502708310int;
    lemma_power_times(b, n, e, a, q, r);
    let e = e + 1;
    let a = r;
    let q = 395156326int;
    let r = 349303586int;
    lemma_power_square(b, n, e, a, q, r);
    let e = 2 * e;
    let a = r;
    let q = 1int;
    let r = 59073833int;
    lemma_power_times(b, n, e, a, q, r);
    let e = e + 1;
    let a = r;
    let q = 5456662int;
    let r = 476657471int;
    lemma_power_square(b, n, e, a, q, r);
    let e = 2 * e;
    let a = r;
    let q = 355262706int;
    let r = 69760507int;
    lemma_power_square(b, n, e, a, q, r);
    let e = 2 * e;
    let a = r;
    let q = 0int;
    let r = 139521014int;
    lemma_power_times(b, n, e, a, q, r);
    let e = e + 1;
    let a = r;
    let q = 30437996int;
    let r = 133239552int;
    lemma_power_square(b, n, e, a, q, r);
    let e = 2 * e;
    let a = r;
    let q = 0int;
    let r = 266479104int;
    lemma_power_times(b, n, e, a, q, r);
    let e = e + 1;
    let a = r;
    let q = 111035826int;
    let r = 318239802int;
    lemma_power_square(b, n, e, a, q, r);
    let e = 2 * e;
    let a = r;
    let q = 158360112int;
    let r = 385225236int;
    lemma_power_square(b, n, e, a, q, r);
    let e = 2 * e;
    let a = r;
    let q = 232041823int;
    let r = 600418699int;
    lemma_power_square(b, n, e, a, q, r);
    let e = 2 * e;
    let a = r;
    let q = 563696358int;
    let r = 94973239int;
    lemma_power_square(b, n, e, a, q, r);
    let e = 2 * e;
    let a = r;
    let q = 14103902int;
    let r = 587162343int;
    lemma_power_square(b, n, e, a, q, r);
    let e = 2 * e;
    let a = r;
    let q = 1int;
    let r = 534791347int;
    lemma_power_times(b, n, e, a, q, r);
    let e = e + 1;
    let a = r;
    let q = 447203870int;
    let r = 631252479int;
    lemma_power_square(b, n, e, a, q, r);
    let e = 2 * e;
    let a = r;
    let q = 623078841int;
    let r = 598665342int;
    lemma_power_square(b, n, e, a, q, r);
    let e = 2 * e;
    let a = r;
    let q = 560408926int;
    let r = 61793050int;
    lemma_power_square(b, n, e, a, q, r);
    let e = 2 * e;
    let a = r;
    let q = 0int;
    let r = 123586100int;
    lemma_power_times(b, n, e, a, q, r);
    let e = e + 1;
    let a = r;
}

/// A power of the base of the certificate, as the power of a power.
proof fn lemma_node_639533339_ta()
    ensures
        power_is(2int, 195337nat, 639533339int, 123586100int),
{
    lemma_power_639533339_root();
    lemma_power_639533339_ta();
    lemma_power_of_power(2int, 1nat, 639533339int, 2int, 195337nat, 123586100int);
    assert(1nat * 195337nat == 195337nat);
}

/// A power of a base, computed from the bits of the exponent.
proof fn lemma_power_639533339_taa()
    ensures
        power_is(123586100int, 2nat, 639533339int, 248876995int),
{
    let n = 639533339int;
    let b = 123586100int;
    lemma_power_one(b, n);
    let e = 1nat;
    let a = 123586100int;
    let q = 23882295int;
    let r = 248876995int;
    lemma_power_square(b, n, e, a, q, r);
    let e = 2 * e;
    let a = r;
}

/// A power of the base of the certificate, as the power of a power.
proof fn lemma_node_639533339_taa()
    ensures
        power_is(2int, 390674nat, 639533339int, 248876995int),
{
    lemma_node_639533339_ta();
    lemma_power_639533339_taa();
    lemma_power_of_power(2int, 195337nat, 639533339int, 123586100int, 2nat, 248876995int);
    assert(195337nat * 2nat == 390674nat);
}

/// A power of a base, computed from the bits of the exponent.
proof fn lemma_power_639533339_tab()
    ensures
        power_is(123586100int, 1637nat, 639533339int, 639533338int),
{
    let n = 639533339int;
    let b = 123586100int;
    lemma_power_one(b, n);
    let e = 1nat;
    let a = 123586100int;
    let q = 23882295int;
    let r = 248876995int;
    lemma_power_square(b, n, e, a, q, r);
    let e = 2 * e;
    let a = r;
    let q = 48094032int;
    let r = 320836652int;
    lemma_power_times(b, n, e, a, q, r);
    let e = e + 1;
    let a = r;
    let q = 160955107int;
    let r = 257756831int;
    lemma_power_square(b, n, e, a, q, r);
    let e = 2 * e;
    let a = r;
    let q = 103886036int;
    let r = 448608357int;
    lemma_power_square(b, n, e, a, q, r);
    let e = 2 * e;
    let a = r;
    let q = 314681730int;
    let r = 461042979int;
    lemma_power_square(b, n, e, a, q, r);
    let e = 2 * e;
    let a = r;
    let q = 89093875int;
    let r = 343793275int;
    lemma_power_times(b, n, e, a, q, r);
    let e = e + 1;
    let a = r;
    let q = 184812594int;
    let r = 605154259int;
    lemma_power_square(b, n, e, a, q, r);
    let e = 2 * e;
    let a = r;
    let q = 116942542int;
    let r = 411792162int;
    lemma_power_times(b, n, e, a, q, r);
    let e = e + 1;
    let a = r;
    let q = 265150812int;
    let r = 547712976int;
    lemma_power_square(b, n, e, a, q, r);
    let e = 2 * e;
    let a = r;
    let q = 469075630int;
    let r = 181348006int;
    lemma_power_square(b, n, e, a, q, r);
    let e = 2 * e;
    let a = r;
    let q = 51423588int;
    let r = 343175704int;
    lemma_power_square(b, n, e, a, q, r);
    let e = 2 * e;
    let a = r;
    let q = 66316709int;
    let r = 533853049int;
    lemma_power_times(b, n, e, a, q, r);
    let e = e + 1;
    let a = r;
    let q = 445635998int;
    let r = 147059079int;
    lemma_power_square(b, n, e, a, q, r);
    let e = 2 * e;
    let a = r;
    let q = 33815864int;
    let r = 301238345int;
    lemma_power_square(b, n, e, a, q, r);
    let e = 2 * e;
    let a = r;
    let q = 58212558int;
    let r = 639533338int;
    lemma_power_times(b, n, e, a, q, r);
    let e = e + 1;
    let a = r;
}

/// A power of the base of the certificate, as the power of a power.
proof fn lemma_node_639533339_tab()
    ensures
        power_is(2int, 319766669nat, 639533339int, 639533338int),
{
    lemma_node_639533339_ta();
    lemma_power_639533339_tab();
    lemma_power_of_power(2int, 195337nat, 639533339int, 123586100int, 1637nat, 639533338int);
    assert(195337nat * 1637nat == 319766669nat);
}

/// A power of a base, computed from the bits of the exponent.
proof fn lemma_power_639533339_tb()
    ensures
        power_is(2int, 3274nat, 639533339int, 305353071int),
{
    let n = 639533339int;
    let b = 2int;
    lemma_power_one(b, n);
    let e = 1nat;
    let a = 2int;
    let q = 0int;
    let r = 4int;
    lemma_power_square(b, n, e, a, q, r);
    let e = 2 * e;
    let a = r;
    let q = 0int;
    let r = 8int;
    lemma_power_times(b, n, e, a, q, r);
    let e = e + 1;
    let a = r;
    let q = 0int;
    let r = 64int;
    lemma_power_square(b, n, e, a, q, r);
    let e = 2 * e;
    let a = r;
    let q = 0int;
    let r = 4096int;
    lemma_power_square(b, n, e, a, q, r);
    let e = 2 * e;
    let a = r;
    let q = 0int;
    let r = 16777216int;
    lemma_power_square(b, n, e, a, q, r);
    let e = 2 * e;
    let a = r;
    let q = 0int;
    let r = 33554432int;
    lemma_power_times(b, n, e, a, q, r);
    let e = e + 1;
    let a = r;
    let q = 1760502int;
    let r = 184466446int;
    lemma_power_square(b, n, e, a, q, r);
    let e = 2 * e;
    let a = r;
    let q = 0int;
    let r = 368932892int;
    lemma_power_times(b, n, e, a, q, r);
    let e = e + 1;
    let a = r;
    let q = 212829371int;
    let r = 526583895int;
    lemma_power_square(b, n, e, a, q, r);
    let e = 2 * e;
    let a = r;
    let q = 433582710int;
    let r = 214402335int;
    lemma_power_square(b, n, e, a, q, r);
    let e = 2 * e;
    let a = r;
    let q = 71877974int;
    let r = 540677039int;
    lemma_power_square(b, n, e, a, q, r);
    let e = 2 * e;
    let a = r;
    let q = 1int;
    let r = 441820739int;
    lemma_power_times(b, n, e, a, q, r);
    let e = e + 1;
    let a = r;
    let q = 305231257int;
    let r = 454128998int;
    lemma_power_square(b, n, e, a, q, r);
    let e = 2 * e;
    let a = r;
    let q = 322474426int;
    let r = 422595590int;
    lemma_power_square(b, n, e, a, q, r);
    let e = 2 * e;
    let a = r;
    let q = 1int;
    let r = 205657841int;
    lemma_power_times(b, n, e, a, q, r);
    let e = e + 1;
    let a = r;
    let q = 66134390int;
    let r = 305353071int;
    lemma_power_square(b, n, e, a, q, r);
    let e = 2 * e;
    let a = r;
}

/// A power of the base of the certificate, as the power of a power.
proof fn lemma_node_639533339_tb()
    ensures
        power_is(2int, 3274nat, 639533339int, 305353071int),
{
    lemma_power_639533339_root();
    lemma_power_639533339_tb();
    lemma_power_of_power(2int, 1nat, 639533339int, 2int, 3274nat, 305353071int);
    assert(1nat * 3274nat == 3274nat);
}

/// A power of a base, computed from the bits of the exponent.
proof fn lemma_power_639533339_tba()
    ensures
        power_is(305353071int, 229nat, 639533339int, 256057581int),
{
    let n = 639533339int;
    let b = 305353071int;
    lemma_power_one(b, n);
    let e = 1nat;
    let a = 305353071int;
    let q = 145794585int;
    let r = 215961726int;
    lemma_power_square(b, n, e, a, q, r);
    let e = 2 * e;
    let a = r;
    let q = 103113586int;
    let r = 301716892int;
    lemma_power_times(b, n, e, a, q, r);
    let e = e + 1;
    let a = r;
    let q = 142342982int;
    let r = 356462766int;
    lemma_power_square(b, n, e, a, q, r);
    let e = 2 * e;
    let a = r;
    let q = 170197538int;
    let r = 528535004int;
    lemma_power_times(b, n, e, a, q, r);
    let e = e + 1;
    let a = r;
    let q = 436801701int;
    let r = 131870377int;
    lemma_power_square(b, n, e, a, q, r);
    let e = 2 * e;
    let a = r;
    let q = 27191383int;
    let r = 368104292int;
    lemma_power_square(b, n, e, a, q, r);
    let e = 2 * e;
    let a = r;
    let q = 211874442int;
    let r = 447799426int;
    lemma_power_square(b, n, e, a, q, r);
    let e = 2 * e;
    let a = r;
    let q = 213807352int;
    let r = 193828918int;
    lemma_power_times(b, n, e, a, q, r);
    let e = e + 1;
    let a = r;
    let q = 58745411int;
    let r = 605293395int;
    lemma_power_square(b, n, e, a, q, r);
    let e = 2 * e;
    let a = r;
    let q = 572886621int;
    let r = 434068506int;
    lemma_power_square(b, n, e, a, q, r);
    let e = 2 * e;
    let a = r;
    let q = 207251355int;
    let r = 256057581int;
    lemma_power_times(b, n, e, a, q, r);
    let e = e + 1;
    let a = r;
}

/// A power of the base of the certificate, as the power of a power.
proof fn lemma_node_639533339_tba()
    ensures
        power_is(2int, 749746nat, 639533339int, 256057581int),
{
    lemma_node_639533339_tb();
    lemma_power_639533339_tba();
    lemma_power_of_power(2int, 3274nat, 639533339int, 305353071int, 229nat, 256057581int);
    assert(3274nat * 229nat == 749746nat);
}

/// A power of a base, computed from the bits of the exponent.
proof fn lemma_power_639533339_tbb()
    ensures
        power_is(305353071int, 853nat, 639533339int, 271298491int),
{
    let n = 639533339int;
    let b = 305353071int;
    lemma_power_one(b, n);
    let e = 1nat;
    let a = 305353071int;
    let q = 145794585int;
    let r = 215961726int;
    lemma_power_square(b, n, e, a, q, r);
    let e = 2 * e;
    let a = r;
    let q = 103113586int;
    let r = 301716892int;
    lemma_power_times(b, n, e, a, q, r);
    let e = e + 1;
    let a = r;
    let q = 142342982int;
    let r = 356462766int;
    lemma_power_square(b, n, e, a, q, r);
    let e = 2 * e;
    let a = r;
    let q = 198685034int;
    let r = 341022230int;
    lemma_power_square(b, n, e, a, q, r);
    let e = 2 * e;
    let a = r;
    let q = 162825264int;
    let r = 450291834int;
    lemma_power_times(b, n, e, a, q, r);
    let e = e + 1;
    let a = r;
    let q = 317047952int;
    let r = 401411828int;
    lemma_power_square(b, n, e, a, q, r);
    let e = 2 * e;
    let a = r;
    let q = 251951611int;
    let r = 609042455int;
    lemma_power_square(b, n, e, a, q, r);
    let e = 2 * e;
    let a = r;
    let q = 290794822int;
    let r = 526058647int;
    lemma_power_times(b, n, e, a, q, r);
    let e = e + 1;
    let a = r;
    let q = 432718176int;
    let r = 140200945int;
    lemma_power_square(b, n, e, a, q, r);
    let e = 2 * e;
    let a = r;
    let q = 30735387int;
    let r = 305325832int;
    lemma_power_square(b, n, e, a, q, r);
    let e = 2 * e;
    let a = r;
    let q = 145781579int;
    let r = 474267791int;
    lemma_power_times(b, n, e, a, q, r);
    let e = e + 1;
    let a = r;
    let q = 351709479int;
    let r = 117199300int;
    lemma_power_square(b, n, e, a, q, r);
    let e = 2 * e;
    let a = r;
    let q = 21477654int;
    let r = 143983294int;
    lemma_power_square(b, n, e, a, q, r);
    let e = 2 * e;
    let a = r;
    let q = 68746597int;
    let r = 271298491int;
    lemma_power_times(b, n, e, a, q, r);
    let e = e + 1;
    let a = r;
}

/// A power of the base of the certificate, as the power of a power.
proof fn lemma_node_639533339_tbb()
    ensures
        power_is(2int, 2792722nat, 639533339int, 271298491int),
{
    lemma_node_639533339_tb();
    lemma_power_639533339_tbb();
    lemma_power_of_power(2int, 3274nat, 639533339int, 305353071int, 853nat, 271298491int);
    assert(3274nat * 853nat == 2792722nat);
}

/// A power of a base, computed from the bits of the exponent.
proof fn lemma_power_639533339_full()
    ensures
        power_is(639533338int, 2nat, 639533339int, 1int),
{
    let n = 639533339int;
    let b = 639533338int;
    lemma_power_one(b, n);
    let e = 1nat;
    let a = 639533338int;
    let q = 639533337int;
    let r = 1int;
    lemma_power_square(b, n, e, a, q, r);
    let e = 2 * e;
    let a = r;
}

/// The certificate of 639533339: base 2, and the prime factors of the
/// number before it.
pub proof fn lemma_certificate_639533339() -> (factors: Seq<int>)
    ensures
        lucas_certificate(639533339int, 2, factors),
{
    let n = 639533339int;
    lemma_prime_2();
    lemma_node_639533339_tab();
    lemma_power_is(2int, 319766669nat, n, 639533338int);
    lemma_prime_229();
    lemma_node_639533339_tbb();
    lemma_power_is(2int, 2792722nat, n, 271298491int);
    lemma_prime_853();
    lemma_node_639533339_tba();
    lemma_power_is(2int, 749746nat, n, 256057581int);
    lemma_prime_1637();
    lemma_node_639533339_taa();
    lemma_power_is(2int, 390674nat, n, 248876995int);
    lemma_power_639533339_full();
    lemma_power_of_power(2int, 319766669nat, n, 639533338int, 2nat, 1);
    assert(319766669nat * 2nat == 639533338nat);
    lemma_power_is(2int, 639533338nat, n, 1);
    lemma_certified_empty(n, 2);
    let s = Seq::<int>::empty();
    lemma_certified_push(n, 2, s, 2int, 319766669nat);
    let s = s.push(2int);
    assert(product(s) == 2int);
    lemma_certified_push(n, 2, s, 229int, 2792722nat);
    let s = s.push(229int);
    assert(product(s) == 458int);
    lemma_certified_push(n, 2, s, 853int, 749746nat);
    let s = s.push(853int);
    assert(product(s) == 390674int);
    lemma_certified_push(n, 2, s, 1637int, 390674nat);
    let s = s.push(1637int);
    assert(product(s) == 639533338int);
    lemma_certificate(n, 2, s);
    s
}

/// 639533339 is prime.
pub proof fn lemma_prime_639533339()
    ensures
        is_prime(639533339int),
{
    let factors = lemma_certificate_639533339();
    lemma_lucas(639533339int, 2, factors);
}

/// A power of a base, computed from the bits of the exponent.
proof fn lemma_power_12048837557_root()
    ensures
        power_is(2int, 14nat, 12048837557int, 16384int),
{
    let n = 12048837557int;
    let b = 2int;
    lemma_power_one(b, n);
    let e = 1nat;
    let a = 2int;
    let q = 0int;
    let r = 4int;
    lemma_power_square(b, n, e, a, q, r);
    let e = 2 * e;
    let a = r;
    let q = 0int;
    let r = 8int;
    lemma_power_times(b, n, e, a, q, r);
    let e = e + 1;
    let a = r;
    let q = 0int;
    let r = 64int;
    lemma_power_square(b, n, e, a, q, r);
    let e = 2 * e;
    let a = r;
    let q = 0int;
    let r = 128int;
    lemma_power_times(b, n, e, a, q, r);
    let e = e + 1;
    let a = r;
    let q = 0int;
    let r = 16384int;
    lemma_power_square(b, n, e, a, q, r);
    let e = 2 * e;
    let a = r;
}

/// A power of a base, computed from the bits of the exponent.
proof fn lemma_power_12048837557_ta()
    ensures
        power_is(16384int, 9254nat, 12048837557int, 4746995210int),
{
    let n = 12048837557int;
    let b = 16384int;
    lemma_power_one(b, n);
    let e = 1nat;
    let a = 16384int;
    let q = 0int;
    let r = 268435456int;
    lemma_power_square(b, n, e, a, q, r);
    let e = 2 * e;
    let a = r;
    let q = 5980460int;
    let r = 2981791716int;
    lemma_power_square(b, n, e, a, q, r);
    let e = 2 * e;
    let a = r;
    let q = 737920301int;
    let r = 844679999int;
    lemma_power_square(b, n, e, a, q, r);
    let e = 2 * e;
    let a = r;
    let q = 1148int;
    let r = 7171588180int;
    lemma_power_times(b, n, e, a, q, r);
    let e = e + 1;
    let a = r;
    let q = 4268600749int;
    let r = 3126182207int;
    lemma_power_square(b, n, e, a, q, r);
    let e = 2 * e;
    let a = r;
    let q = 811116852int;
    let r = 1870180285int;
    lemma_power_square(b, n, e, a, q, r);
    let e = 2 * e;
    let a = r;
    let q = 290283131int;
    let r = 7446330258int;
    lemma_power_square(b, n, e, a, q, r);
    let e = 2 * e;
    let a = r;
    let q = 4601923965int;
    let r = 7255993059int;
    lemma_power_square(b, n, e, a, q, r);
    let e = 2 * e;
    let a = r;
    let q = 4369669274int;
    let r = 12016053863int;
    lemma_power_square(b, n, e, a, q, r);
    let e = 2 * e;
    let a = r;
    let q = 16339int;
    let r = 5069647569int;
    lemma_power_times(b, n, e, a, q, r);
    let e = e + 1;
    let a = r;
    let q = 2133095939int;
    let r = 11360228738int;
    lemma_power_square(b, n, e, a, q, r);
    let e = 2 * e;
    let a = r;
    let q = 10710974927int;
    let r = 7158139305int;
    lemma_power_square(b, n, e, a, q, r);
    let e = 2 * e;
    let a = r;
    let q = 4252605952int;
    let r = 206543761int;
    lemma_power_square(b, n, e, a, q, r);
    let e = 2 * e;
    let a = r;
    let q = 280int;
    let r = 10338464264int;
    lemma_power_times(b, n, e, a, q, r);
    let e = e + 1;
    let a = r;
    let q = 8870884251int;
    let r = 10756446889int;
    lemma_power_square(b, n, e, a, q, r);
    let e = 2 * e;
    let a = r;
    let q = 14626int;
    let r = 7327720694int;
    lemma_power_times(b, n, e, a, q, r);
    let e = e + 1;
    let a = r;
    let q = 4456487218int;
    let r = 4746995210int;
    lemma_power_square(b, n, e, a, q, r);
    let e = 2 * e;
    let a = r;
}

/// A power of the base of the certificate, as the power of a power.
proof fn lemma_node_12048837557_ta()
    ensures
        power_is(2int, 129556nat, 12048837557int, 4746995210int),
{
    lemma_power_12048837557_root();
    lemma_power_12048837557_ta();
    lemma_power_of_power(2int, 14nat, 12048837557int, 16384int, 9254nat, 4746995210int);
    assert(14nat * 9254nat == 129556nat);
}

/// A power of a base, computed from the bits of the exponent.
proof fn lemma_power_12048837557_tb()
    ensures
        power_is(16384int, 93001nat, 12048837557int, 1248843820int),
{
    let n = 12048837557int;
    let b = 16384int;
    lemma_power_one(b, n);
    let e = 1nat;
    let a = 16384int;
    let q = 0int;
    let r = 268435456int;
    lemma_power_square(b, n, e, a, q, r);
    let e = 2 * e;
    let a = r;
    let q = 5980460int;
    let r = 2981791716int;
    lemma_power_square(b, n, e, a, q, r);
    let e = 2 * e;
    let a = r;
    let q = 4054int;
    let r = 7688018866int;
    lemma_power_times(b, n, e, a, q, r);
    let e = e + 1;
    let a = r;
    let q = 4905505099int;
    let r = 11085722813int;
    lemma_power_square(b, n, e, a, q, r);
    let e = 2 * e;
    let a = r;
    let q = 15074int;
    let r = 4305233974int;
    lemma_power_times(b, n, e, a, q, r);
    let e = e + 1;
    let a = r;
    let q = 1538325957int;
    let r = 5274265627int;
    lemma_power_square(b, n, e, a, q, r);
    let e = 2 * e;
    let a = r;
    let q = 2308760307int;
    let r = 7061253130int;
    lemma_power_square(b, n, e, a, q, r);
    let e = 2 * e;
    let a = r;
    let q = 9601int;
    let r = 10681897163int;
    lemma_power_times(b, n, e, a, q, r);
    let e = e + 1;
    let a = r;
    let q = 9470036130int;
    let r = 11616514159int;
    lemma_power_square(b, n, e, a, q, r);
    let e = 2 * e;
    let a = r;
    let q = 11199702923int;
    let r = 362398170int;
    lemma_power_square(b, n, e, a, q, r);
    let e = 2 * e;
    let a = r;
    let q = 492int;
    let r = 9503539236int;
    lemma_power_times(b, n, e, a, q, r);
    let e = e + 1;
    let a = r;
    let q = 7495931253int;
    let r = 4354994775int;
    lemma_power_square(b, n, e, a, q, r);
    let e = 2 * e;
    let a = r;
    let q = 5921int;
    let r = 11067218603int;
    lemma_power_times(b, n, e, a, q, r);
    let e = e + 1;
    let a = r;
    let q = 10165572158int;
    let r = 885333603int;
    lemma_power_square(b, n, e, a, q, r);
    let e = 2 * e;
    let a = r;
    let q = 65053212int;
    let r = 4651878525int;
    lemma_power_square(b, n, e, a, q, r);
    let e = 2 * e;
    let a = r;
    let q = 6325int;
    let r = 7480205575int;
    lemma_power_times(b, n, e, a, q, r);
    let e = e + 1;
    let a = r;
    let q = 4643889933int;
    let r = 8956466944int;
    lemma_power_square(b, n, e, a, q, r);
    let e = 2 * e;
    let a = r;
    let q = 6657762604int;
    let r = 10299380708int;
    lemma_power_square(b, n, e, a, q, r);
    let e = 2 * e;
    let a = r;
    let q = 8803940003int;
    let r = 10601488593int;
    lemma_power_square(b, n, e, a, q, r);
    let e = 2 * e;
    let a = r;
    let q = 14415int;
    let r = 10795723557int;
    lemma_power_times(b, n, e, a, q, r);
    let e = e + 1;
    let a = r;
    let q = 9672937042int;
    let r = 1018645855int;
    lemma_power_square(b, n, e, a, q, r);
    let e = 2 * e;
    let a = r;
    let q = 86119459int;
    let r = 5920959362int;
    lemma_power_square(b, n, e, a, q, r);
    let e = 2 * e;
    let a = r;
    let q = 2909638344int;
    let r = 9980961436int;
    lemma_power_square(b, n, e, a, q, r);
    let e = 2 * e;
    let a = r;
    let q = 13572int;
    let r = 1248843820int;
    lemma_power_times(b, n, e, a, q, r);
    let e = e + 1;
    let a = r;
}

/// A power of the base of the certificate, as the power of a power.
proof fn lemma_node_12048837557_tb()
    ensures
        power_is(2int, 1302014nat, 12048837557int, 1248843820int),
{
    lemma_power_12048837557_root();
    lemma_power_12048837557_tb();
    lemma_power_of_power(2int, 14nat, 12048837557int, 16384int, 93001nat, 1248843820int);
    assert(14nat * 93001nat == 1302014nat);
}

/// A power of a base, computed from the bits of the exponent.
proof fn lemma_power_12048837557_tba()
    ensures
        power_is(1248843820int, 14nat, 12048837557int, 8877273464int),
{
    let n = 12048837557int;
    let b = 1248843820int;
    lemma_power_one(b, n);
    let e = 1nat;
    let a = 1248843820int;
    let q = 129440776int;
    let r = 3476168168int;
    lemma_power_square(b, n, e, a, q, r);
    let e = 2 * e;
    let a = r;
    let q = 360299581int;
    let r = 10563358143int;
    lemma_power_times(b, n, e, a, q, r);
    let e = e + 1;
    let a = r;
    let q = 9261020802int;
    let r = 1988547735int;
    lemma_power_square(b, n, e, a, q, r);
    let e = 2 * e;
    let a = r;
    let q = 206109970int;
    let r = 2221604410int;
    lemma_power_times(b, n, e, a, q, r);
    let e = e + 1;
    let a = r;
    let q = 409626748int;
    let r = 8877273464int;
    lemma_power_square(b, n, e, a, q, r);
    let e = 2 * e;
    let a = r;
}

/// A power of the base of the certificate, as the power of a power.
proof fn lemma_node_12048837557_tba()
    ensures
        power_is(2int, 18228196nat, 12048837557int, 8877273464int),
{
    lemma_node_12048837557_tb();
    lemma_power_12048837557_tba();
    lemma_power_of_power(2int, 1302014nat, 12048837557int, 1248843820int, 14nat, 8877273464int);
    assert(1302014nat * 14nat == 18228196nat);
}

/// A power of a base, computed from the bits of the exponent.
proof fn lemma_power_12048837557_tbb()
    ensures
        power_is(1248843820int, 661nat, 12048837557int, 9967741484int),
{
    let n = 12048837557int;
    let b = 1248843820int;
    lemma_power_one(b, n);
    let e = 1nat;
    let a = 1248843820int;
    let q = 129440776int;
    let r = 3476168168int;
    lemma_power_square(b, n, e, a, q, r);
    let e = 2 * e;
    let a = r;
    let q = 1002897173int;
    let r = 8364949863int;
    lemma_power_square(b, n, e, a, q, r);
    let e = 2 * e;
    let a = r;
    let q = 867014422int;
    let r = 10763149606int;
    lemma_power_times(b, n, e, a, q, r);
    let e = e + 1;
    let a = r;
    let q = 9614652774int;
    let r = 252522118int;
    lemma_power_square(b, n, e, a, q, r);
    let e = 2 * e;
    let a = r;
    let q = 5292412int;
    let r = 7606488440int;
    lemma_power_square(b, n, e, a, q, r);
    let e = 2 * e;
    let a = r;
    let q = 4802012319int;
    let r = 9509768917int;
    lemma_power_square(b, n, e, a, q, r);
    let e = 2 * e;
    let a = r;
    let q = 985673189int;
    let r = 3072383667int;
    lemma_power_times(b, n, e, a, q, r);
    let e = e + 1;
    let a = r;
    let q = 783440008int;
    let r = 5201586433int;
    lemma_power_square(b, n, e, a, q, r);
    let e = 2 * e;
    let a = r;
    let q = 2245569441int;
    let r = 2397367852int;
    lemma_power_square(b, n, e, a, q, r);
    let e = 2 * e;
    let a = r;
    let q = 248483558int;
    let r = 309486834int;
    lemma_power_times(b, n, e, a, q, r);
    let e = e + 1;
    let a = r;
    let q = 7949488int;
    let r = 10846022740int;
    lemma_power_square(b, n, e, a, q, r);
    let e = 2 * e;
    let a = r;
    let q = 9763282866int;
    let r = 1121709238int;
    lemma_power_square(b, n, e, a, q, r);
    let e = 2 * e;
    let a = r;
    let q = 116263468int;
    let r = 9967741484int;
    lemma_power_times(b, n, e, a, q, r);
    let e = e + 1;
    let a = r;
}

/// A power of the base of the certificate, as the power of a power.
proof fn lemma_node_12048837557_tbb()
    ensures
        power_is(2int, 860631254nat, 12048837557int, 9967741484int),
{
    lemma_node_12048837557_tb();
    lemma_power_12048837557_tbb();
    lemma_power_of_power(2int, 1302014nat, 12048837557int, 1248843820int, 661nat, 9967741484int);
    assert(1302014nat * 661nat == 860631254nat);
}

/// A power of a base, computed from the bits of the exponent.
proof fn lemma_power_12048837557_tbba()
    ensures
        power_is(9967741484int, 2nat, 12048837557int, 41029474int),
{
    let n = 12048837557int;
    let b = 9967741484int;
    lemma_power_one(b, n);
    let e = 1nat;
    let a = 9967741484int;
    let q = 8246095926int;
    let r = 41029474int;
    lemma_power_square(b, n, e, a, q, r);
    let e = 2 * e;
    let a = r;
}

/// A power of the base of the certificate, as the power of a power.
proof fn lemma_node_12048837557_tbba()
    ensures
        power_is(2int, 1721262508nat, 12048837557int, 41029474int),
{
    lemma_node_12048837557_tbb();
    lemma_power_12048837557_tbba();
    lemma_power_of_power(2int, 860631254nat, 12048837557int, 9967741484int, 2nat, 41029474int);
    assert(860631254nat * 2nat == 1721262508nat);
}

/// A power of a base, computed from the bits of the exponent.
proof fn lemma_power_12048837557_tbbb()
    ensures
        power_is(9967741484int, 7nat, 12048837557int, 12048837556int),
{
    let n = 12048837557int;
    let b = 9967741484int;
    lemma_power_one(b, n);
    let e = 1nat;
    let a = 9967741484int;
    let q = 8246095926int;
    let r = 41029474int;
    lemma_power_square(b, n, e, a, q, r);
    let e = 2 * e;
    let a = r;
    let q = 33942792int;
    let r = 3017460272int;
    lemma_power_times(b, n, e, a, q, r);
    let e = e + 1;
    let a = r;
    let q = 755680077int;
    let r = 264062095int;
    lemma_power_square(b, n, e, a, q, r);
    let e = 2 * e;
    let a = r;
    let q = 218452832int;
    let r = 12048837556int;
    lemma_power_times(b, n, e, a, q, r);
    let e = e + 1;
    let a = r;
}

/// A power of the base of the certificate, as the power of a power.
proof fn lemma_node_12048837557_tbbb()
    ensures
        power_is(2int, 6024418778nat, 12048837557int, 12048837556int),
{
    lemma_node_12048837557_tbb();
    lemma_power_12048837557_tbbb();
    lemma_power_of_power(2int, 860631254nat, 12048837557int, 9967741484int, 7nat, 12048837556int);
    assert(860631254nat * 7nat == 6024418778nat);
}

/// A power of a base, computed from the bits of the exponent.
proof fn lemma_power_12048837557_full()
    ensures
        power_is(12048837556int, 2nat, 12048837557int, 1int),
{
    let n = 12048837557int;
    let b = 12048837556int;
    lemma_power_one(b, n);
    let e = 1nat;
    let a = 12048837556int;
    let q = 12048837555int;
    let r = 1int;
    lemma_power_square(b, n, e, a, q, r);
    let e = 2 * e;
    let a = r;
}

/// The certificate of 12048837557: base 2, and the prime factors of the
/// number before it.
pub proof fn lemma_certificate_12048837557() -> (factors: Seq<int>)
    ensures
        lucas_certificate(12048837557int, 2, factors),
{
    let n = 12048837557int;
    lemma_prime_2();
    lemma_node_12048837557_tbbb();
    lemma_power_is(2int, 6024418778nat, n, 12048837556int);
    lemma_prime_7();
    lemma_node_12048837557_tbba();
    lemma_power_is(2int, 1721262508nat, n, 41029474int);
    lemma_prime_661();
    lemma_node_12048837557_tba();
    lemma_power_is(2int, 18228196nat, n, 8877273464int);
    lemma_prime_93001();
    lemma_node_12048837557_ta();
    lemma_power_is(2int, 129556nat, n, 4746995210int);
    lemma_power_12048837557_full();
    lemma_power_of_power(2int, 6024418778nat, n, 12048837556int, 2nat, 1);
    assert(6024418778nat * 2nat == 12048837556nat);
    lemma_power_is(2int, 12048837556nat, n, 1);
    lemma_certified_empty(n, 2);
    let s = Seq::<int>::empty();
    lemma_certified_push(n, 2, s, 2int, 6024418778nat);
    let s = s.push(2int);
    assert(product(s) == 2int);
    lemma_certified_push(n, 2, s, 2int, 6024418778nat);
    let s = s.push(2int);
    assert(product(s) == 4int);
    lemma_certified_push(n, 2, s, 7int, 1721262508nat);
    let s = s.push(7int);
    assert(product(s) == 28int);
    lemma_certified_push(n, 2, s, 7int, 1721262508nat);
    let s = s.push(7int);
    assert(product(s) == 196int);
    lemma_certified_push(n, 2, s, 661int, 18228196nat);
    let s = s.push(661int);
    assert(product(s) == 129556int);
    lemma_certified_push(n, 2, s, 93001int, 129556nat);
    let s = s.push(93001int);
    assert(product(s) == 12048837556int);
    lemma_certificate(n, 2, s);
    s
}

/// 12048837557 is prime.
pub proof fn lemma_prime_12048837557()
    ensures
        is_prime(12048837557int),
{
    let factors = lemma_certificate_12048837557();
    lemma_lucas(12048837557int, 2, factors);
}

/// A power of a base, computed from the bits of the exponent.
proof fn lemma_power_5156902474397_root()
    ensures
        power_is(2int, 2nat, 5156902474397int, 4int),
{
    let n = 5156902474397int;
    let b = 2int;
    lemma_power_one(b, n);
    let e = 1nat;
    let a = 2int;
    let q = 0int;
    let r = 4int;
    lemma_power_square(b, n, e, a, q, r);
    let e = 2 * e;
    let a = r;
}

/// A power of a base, computed from the bits of the exponent.
proof fn lemma_power_5156902474397_ta()
    ensures
        power_is(4int, 214nat, 5156902474397int, 4746712836098int),
{
    let n = 5156902474397int;
    let b = 4int;
    lemma_power_one(b, n);
    let e = 1nat;
    let a = 4int;
    let q = 0int;
    let r = 16int;
    lemma_power_square(b, n, e, a, q, r);
    let e = 2 * e;
    let a = r;
    let q = 0int;
    let r = 64int;
    lemma_power_times(b, n, e, a, q, r);
    let e = e + 1;
    let a = r;
    let q = 0int;
    let r = 4096int;
    lemma_power_square(b, n, e, a, q, r);
    let e = 2 * e;
    let a = r;
    let q = 0int;
    let r = 16777216int;
    lemma_power_square(b, n, e, a, q, r);
    let e = 2 * e;
    let a = r;
    let q = 0int;
    let r = 67108864int;
    lemma_power_times(b, n, e, a, q, r);
    let e = e + 1;
    let a = r;
    let q = 873int;
    let r = 1623767221915int;
    lemma_power_square(b, n, e, a, q, r);
    let e = 2 * e;
    let a = r;
    let q = 511279785502int;
    let r = 1125649474931int;
    lemma_power_square(b, n, e, a, q, r);
    let e = 2 * e;
    let a = r;
    let q = 0int;
    let r = 4502597899724int;
    lemma_power_times(b, n, e, a, q, r);
    let e = e + 1;
    let a = r;
    let q = 3931311082040int;
    let r = 2552492746296int;
    lemma_power_square(b, n, e, a, q, r);
    let e = 2 * e;
    let a = r;
    let q = 1int;
    let r = 5053068510787int;
    lemma_power_times(b, n, e, a, q, r);
    let e = e + 1;
    let a = r;
    let q = 4951325238643int;
    let r = 4746712836098int;
    lemma_power_square(b, n, e, a, q, r);
    let e = 2 * e;
    let a = r;
}

/// A power of the base of the certificate, as the power of a power.
proof fn lemma_node_5156902474397_ta()
    ensures
        power_is(2int, 428nat, 5156902474397int, 4746712836098int),
{
    lemma_power_5156902474397_root();
    lemma_power_5156902474397_ta();
    lemma_power_of_power(2int, 2nat, 5156902474397int, 4int, 214nat, 4746712836098int);
    assert(2nat * 214nat == 428nat);
}

/// The power of a base with the leading bits of an exponent.
proof fn lemma_power_5156902474397_tb_part_1()
    ensures
        power_is(4int, 5883220nat, 5156902474397int, 3972041157638int),
{
    let n = 5156902474397int;
    let b = 4int;
    lemma_power_one(b, n);
    let e = 1nat;
    let a = 4int;
    let q = 0int;
    let r = 16int;
    lemma_power_square(b, n, e, a, q, r);
    let e = 2 * e;
    let a = r;
    let q = 0int;
    let r = 256int;
    lemma_power_square(b, n, e, a, q, r);
    let e = 2 * e;
    let a = r;
    let q = 0int;
    let r = 1024int;
    lemma_power_times(b, n, e, a, q, r);
    let e = e + 1;
    let a = r;
    let q = 0int;
    let r = 1048576int;
    lemma_power_square(b, n, e, a, q, r);
    let e = 2 * e;
    let a = r;
    let q = 0int;
    let r = 4194304int;
    lemma_power_times(b, n, e, a, q, r);
    let e = e + 1;
    let a = r;
    let q = 3int;
    let r = 2121478621225int;
    lemma_power_square(b, n, e, a, q, r);
    let e = 2 * e;
    let a = r;
    let q = 872747073007int;
    let r = 2189513198846int;
    lemma_power_square(b, n, e, a, q, r);
    let e = 2 * e;
    let a = r;
    let q = 929621623003int;
    let r = 3717741977525int;
    lemma_power_square(b, n, e, a, q, r);
    let e = 2 * e;
    let a = r;
    let q = 2int;
    let r = 4557162961306int;
    lemma_power_times(b, n, e, a, q, r);
    let e = e + 1;
    let a = r;
    let q = 4027172194744int;
    let r = 1140495256268int;
    lemma_power_square(b, n, e, a, q, r);
    let e = 2 * e;
    let a = r;
    let q = 0int;
    let r = 4561981025072int;
    lemma_power_times(b, n, e, a, q, r);
    let e = e + 1;
    let a = r;
    let q = 4035692157538int;
    let r = 4696157050598int;
    lemma_power_square(b, n, e, a, q, r);
    let e = 2 * e;
    let a = r;
    let q = 3int;
    let r = 3313920779201int;
    lemma_power_times(b, n, e, a, q, r);
    let e = e + 1;
    let a = r;
    let q = 2129586701579int;
    let r = 4472267225538int;
    lemma_power_square(b, n, e, a, q, r);
    let e = 2 * e;
    let a = r;
    let q = 3878524799707int;
    let r = 2203038787765int;
    lemma_power_square(b, n, e, a, q, r);
    let e = 2 * e;
    let a = r;
    let q = 941142463812int;
    let r = 4888884673861int;
    lemma_power_square(b, n, e, a, q, r);
    let e = 2 * e;
    let a = r;
    let q = 4634796464152int;
    let r = 1061028330977int;
    lemma_power_square(b, n, e, a, q, r);
    let e = 2 * e;
    let a = r;
    let q = 0int;
    let r = 4244113323908int;
    lemma_power_times(b, n, e, a, q, r);
    let e = e + 1;
    let a = r;
    let q = 3492890935130int;
    let r = 2663911525854int;
    lemma_power_square(b, n, e, a, q, r);
    let e = 2 * e;
    let a = r;
    let q = 1376102156829int;
    let r = 3267859222203int;
    lemma_power_square(b, n, e, a, q, r);
    let e = 2 * e;
    let a = r;
    let q = 2int;
    let r = 2757631940018int;
    lemma_power_times(b, n, e, a, q, r);
    let e = e + 1;
    let a = r;
    let q = 1474632098311int;
    let r = 2202285396857int;
    lemma_power_square(b, n, e, a, q, r);
    let e = 2 * e;
    let a = r;
    let q = 940498873750int;
    let r = 627275099699int;
    lemma_power_square(b, n, e, a, q, r);
    let e = 2 * e;
    let a = r;
    let q = 0int;
    let r = 2509100398796int;
    lemma_power_times(b, n, e, a, q, r);
    let e = e + 1;
    let a = r;
    let q = 1220807421217int;
    let r = 2078301168467int;
    lemma_power_square(b, n, e, a, q, r);
    let e = 2 * e;
    let a = r;
    let q = 837583368755int;
    let r = 4863117864354int;
    lemma_power_square(b, n, e, a, q, r);
    let e = 2 * e;
    let a = r;
    let q = 3int;
    let r = 3981764034225int;
    lemma_power_times(b, n, e, a, q, r);
    let e = e + 1;
    let a = r;
    let q = 3074412382813int;
    let r = 2610476011864int;
    lemma_power_square(b, n, e, a, q, r);
    let e = 2 * e;
    let a = r;
    let q = 1321449269663int;
    let r = 2141462436285int;
    lemma_power_square(b, n, e, a, q, r);
    let e = 2 * e;
    let a = r;
    let q = 1int;
    let r = 3408947270743int;
    lemma_power_times(b, n, e, a, q, r);
    let e = e + 1;
    let a = r;
    let q = 2253469316591int;
    let r = 304078951422int;
    lemma_power_square(b, n, e, a, q, r);
    let e = 2 * e;
    let a = r;
    let q = 17930144918int;
    let r = 3972041157638int;
    lemma_power_square(b, n, e, a, q, r);
    let e = 2 * e;
    let a = r;
}

/// A power of a base, computed from the bits of the exponent.
proof fn lemma_power_5156902474397_tb()
    ensures
        power_is(4int, 12048837557nat, 5156902474397int, 651773352142int),
{
    let n = 5156902474397int;
    let b = 4int;
    lemma_power_5156902474397_tb_part_1();
    let e = 5883220nat;
    let a = 3972041157638int;
    let q = 3int;
    let r = 417457207361int;
    lemma_power_times(b, n, e, a, q, r);
    let e = e + 1;
    let a = r;
    let q = 33793642761int;
    let r = 4555785694204int;
    lemma_power_square(b, n, e, a, q, r);
    let e = 2 * e;
    let a = r;
    let q = 4024738376294int;
    let r = 2729512448898int;
    lemma_power_square(b, n, e, a, q, r);
    let e = 2 * e;
    let a = r;
    let q = 2int;
    let r = 604244846798int;
    lemma_power_times(b, n, e, a, q, r);
    let e = e + 1;
    let a = r;
    let q = 70800608833int;
    let r = 2226696304103int;
    lemma_power_square(b, n, e, a, q, r);
    let e = 2 * e;
    let a = r;
    let q = 1int;
    let r = 3749882742015int;
    lemma_power_times(b, n, e, a, q, r);
    let e = e + 1;
    let a = r;
    let q = 2726757127689int;
    let r = 2874463981692int;
    lemma_power_square(b, n, e, a, q, r);
    let e = 2 * e;
    let a = r;
    let q = 2int;
    let r = 1184050977974int;
    lemma_power_times(b, n, e, a, q, r);
    let e = e + 1;
    let a = r;
    let q = 271864113273int;
    let r = 3905842773295int;
    lemma_power_square(b, n, e, a, q, r);
    let e = 2 * e;
    let a = r;
    let q = 2958288981698int;
    let r = 979118570919int;
    lemma_power_square(b, n, e, a, q, r);
    let e = 2 * e;
    let a = r;
    let q = 0int;
    let r = 3916474283676int;
    lemma_power_times(b, n, e, a, q, r);
    let e = e + 1;
    let a = r;
    let q = 2974415531581int;
    let r = 510322641319int;
    lemma_power_square(b, n, e, a, q, r);
    let e = 2 * e;
    let a = r;
    let q = 0int;
    let r = 2041290565276int;
    lemma_power_times(b, n, e, a, q, r);
    let e = e + 1;
    let a = r;
    let q = 808017447018int;
    let r = 1740567958030int;
    lemma_power_square(b, n, e, a, q, r);
    let e = 2 * e;
    let a = r;
    let q = 587479951688int;
    let r = 2246624548764int;
    lemma_power_square(b, n, e, a, q, r);
    let e = 2 * e;
    let a = r;
    let q = 1int;
    let r = 3829595720659int;
    lemma_power_times(b, n, e, a, q, r);
    let e = e + 1;
    let a = r;
    let q = 2843917149200int;
    let r = 183330361881int;
    lemma_power_square(b, n, e, a, q, r);
    let e = 2 * e;
    let a = r;
    let q = 6517482491int;
    let r = 2741394575234int;
    lemma_power_square(b, n, e, a, q, r);
    let e = 2 * e;
    let a = r;
    let q = 2int;
    let r = 651773352142int;
    lemma_power_times(b, n, e, a, q, r);
    let e = e + 1;
    let a = r;
}

/// A power of the base of the certificate, as the power of a power.
proof fn lemma_node_5156902474397_tb()
    ensures
        power_is(2int, 24097675114nat, 5156902474397int, 651773352142int),
{
    lemma_power_5156902474397_root();
    lemma_power_5156902474397_tb();
    lemma_power_of_power(2int, 2nat, 5156902474397int, 4int, 12048837557nat, 651773352142int);
    assert(2nat * 12048837557nat == 24097675114nat);
}

/// A power of a base, computed from the bits of the exponent.
proof fn lemma_power_5156902474397_tba()
    ensures
        power_is(651773352142int, 2nat, 5156902474397int, 4827909776387int),
{
    let n = 5156902474397int;
    let b = 651773352142int;
    lemma_power_one(b, n);
    let e = 1nat;
    let a = 651773352142int;
    let q = 82376679541int;
    let r = 4827909776387int;
    lemma_power_square(b, n, e, a, q, r);
    let e = 2 * e;
    let a = r;
}

/// A power of the base of the certificate, as the power of a power.
proof fn lemma_node_5156902474397_tba()
    ensures
        power_is(2int, 48195350228nat, 5156902474397int, 4827909776387int),
{
    lemma_node_5156902474397_tb();
    lemma_power_5156902474397_tba();
    lemma_power_of_power(
        2int,
        24097675114nat,
        5156902474397int,
        651773352142int,
        2nat,
        4827909776387int,
    );
    assert(24097675114nat * 2nat == 48195350228nat);
}

/// A power of a base, computed from the bits of the exponent.
proof fn lemma_power_5156902474397_tbb()
    ensures
        power_is(651773352142int, 107nat, 5156902474397int, 5156902474396int),
{
    let n = 5156902474397int;
    let b = 651773352142int;
    lemma_power_one(b, n);
    let e = 1nat;
    let a = 651773352142int;
    let q = 82376679541int;
    let r = 4827909776387int;
    lemma_power_square(b, n, e, a, q, r);
    let e = 2 * e;
    let a = r;
    let q = 610192446806int;
    let r = 2667428044972int;
    lemma_power_times(b, n, e, a, q, r);
    let e = e + 1;
    let a = r;
    let q = 1379737625527int;
    let r = 4318363348565int;
    lemma_power_square(b, n, e, a, q, r);
    let e = 2 * e;
    let a = r;
    let q = 3616175039728int;
    let r = 3526709715209int;
    lemma_power_square(b, n, e, a, q, r);
    let e = 2 * e;
    let a = r;
    let q = 445735676508int;
    let r = 2402145762002int;
    lemma_power_times(b, n, e, a, q, r);
    let e = e + 1;
    let a = r;
    let q = 1118947719207int;
    let r = 4711364404825int;
    lemma_power_square(b, n, e, a, q, r);
    let e = 2 * e;
    let a = r;
    let q = 4304319243044int;
    let r = 3800852936157int;
    lemma_power_square(b, n, e, a, q, r);
    let e = 2 * e;
    let a = r;
    let q = 480384236757int;
    let r = 4323426387765int;
    lemma_power_times(b, n, e, a, q, r);
    let e = e + 1;
    let a = r;
    let q = 3624659536073int;
    let r = 1180361272244int;
    lemma_power_square(b, n, e, a, q, r);
    let e = 2 * e;
    let a = r;
    let q = 149184132716int;
    let r = 5156902474396int;
    lemma_power_times(b, n, e, a, q, r);
    let e = e + 1;
    let a = r;
}

/// A power of the base of the certificate, as the power of a power.
proof fn lemma_node_5156902474397_tbb()
    ensures
        power_is(2int, 2578451237198nat, 5156902474397int, 5156902474396int),
{
    lemma_node_5156902474397_tb();
    lemma_power_5156902474397_tbb();
    lemma_power_of_power(
        2int,
        24097675114nat,
        5156902474397int,
        651773352142int,
        107nat,
        5156902474396int,
    );
    assert(24097675114nat * 107nat == 2578451237198nat);
}

/// A power of a base, computed from the bits of the exponent.
proof fn lemma_power_5156902474397_full()
    ensures
        power_is(5156902474396int, 2nat, 5156902474397int, 1int),
{
    let n = 5156902474397int;
    let b = 5156902474396int;
    lemma_power_one(b, n);
    let e = 1nat;
    let a = 5156902474396int;
    let q = 5156902474395int;
    let r = 1int;
    lemma_power_square(b, n, e, a, q, r);
    let e = 2 * e;
    let a = r;
}

/// The certificate of 5156902474397: base 2, and the prime factors of the
/// number before it.
pub proof fn lemma_certificate_5156902474397() -> (factors: Seq<int>)
    ensures
        lucas_certificate(5156902474397int, 2, factors),
{
    let n = 5156902474397int;
    lemma_prime_2();
    lemma_node_5156902474397_tbb();
    lemma_power_is(2int, 2578451237198nat, n, 5156902474396int);
    lemma_prime_107();
    lemma_node_5156902474397_tba();
    lemma_power_is(2int, 48195350228nat, n, 4827909776387int);
    lemma_prime_12048837557();
    lemma_node_5156902474397_ta();
    lemma_power_is(2int, 428nat, n, 4746712836098int);
    lemma_power_5156902474397_full();
    lemma_power_of_power(2int, 2578451237198nat, n, 5156902474396int, 2nat, 1);
    assert(2578451237198nat * 2nat == 5156902474396nat);
    lemma_power_is(2int, 5156902474396nat, n, 1);
    lemma_certified_empty(n, 2);
    let s = Seq::<int>::empty();
    lemma_certified_push(n, 2, s, 2int, 2578451237198nat);
    let s = s.push(2int);
    assert(product(s) == 2int);
    lemma_certified_push(n, 2, s, 2int, 2578451237198nat);
    let s = s.push(2int);
    assert(product(s) == 4int);
    lemma_certified_push(n, 2, s, 107int, 48195350228nat);
    let s = s.push(107int);
    assert(product(s) == 428int);
    lemma_certified_push(n, 2, s, 12048837557int, 428nat);
    let s = s.push(12048837557int);
    assert(product(s) == 5156902474396int);
    lemma_certificate(n, 2, s);
    s
}

/// 5156902474397 is prime.
pub proof fn lemma_prime_5156902474397()
    ensures
        is_prime(5156902474397int),
{
    let factors = lemma_certificate_5156902474397();
    lemma_lucas(5156902474397int, 2, factors);
}

/// A power of a base, computed from the bits of the exponent.
proof fn lemma_power_1670836401704629_root()
    ensures
        power_is(2int, 54nat, 1670836401704629int, 1306034492435694int),
{
    let n = 1670836401704629int;
    let b = 2int;
    lemma_power_one(b, n);
    let e = 1nat;
    let a = 2int;
    let q = 0int;
    let r = 4int;
    lemma_power_square(b, n, e, a, q, r);
    let e = 2 * e;
    let a = r;
    let q = 0int;
    let r = 8int;
    lemma_power_times(b, n, e, a, q, r);
    let e = e + 1;
    let a = r;
    let q = 0int;
    let r = 64int;
    lemma_power_square(b, n, e, a, q, r);
    let e = 2 * e;
    let a = r;
    let q = 0int;
    let r = 4096int;
    lemma_power_square(b, n, e, a, q, r);
    let e = 2 * e;
    let a = r;
    let q = 0int;
    let r = 8192int;
    lemma_power_times(b, n, e, a, q, r);
    let e = e + 1;
    let a = r;
    let q = 0int;
    let r = 67108864int;
    lemma_power_square(b, n, e, a, q, r);
    let e = 2 * e;
    let a = r;
    let q = 0int;
    let r = 134217728int;
    lemma_power_times(b, n, e, a, q, r);
    let e = e + 1;
    let a = r;
    let q = 10int;
    let r = 1306034492435694int;
    lemma_power_square(b, n, e, a, q, r);
    let e = 2 * e;
    let a = r;
}

/// A power of a base, computed from the bits of the exponent.
proof fn lemma_power_1670836401704629_ta()
    ensures
        power_is(1306034492435694int, 6nat, 1670836401704629int, 11046204280772int),
{
    let n = 1670836401704629int;
    let b = 1306034492435694int;
    lemma_power_one(b, n);
    let e = 1nat;
    let a = 1306034492435694int;
    let q = 1020881573858180int;
    let r = 929988429746416int;
    lemma_power_square(b, n, e, a, q, r);
    let e = 2 * e;
    let a = r;
    let q = 726939493044182int;
    let r = 253377396054226int;
    lemma_power_times(b, n, e, a, q, r);
    let e = e + 1;
    let a = r;
    let q = 38423932328576int;
    let r = 11046204280772int;
    lemma_power_square(b, n, e, a, q, r);
    let e = 2 * e;
    let a = r;
}

/// A power of the base of the certificate, as the power of a power.
proof fn lemma_node_1670836401704629_ta()
    ensures
        power_is(2int, 324nat, 1670836401704629int, 11046204280772int),
{
    lemma_power_1670836401704629_root();
    lemma_power_1670836401704629_ta();
    lemma_power_of_power(
        2int,
        54nat,
        1670836401704629int,
        1306034492435694int,
        6nat,
        11046204280772int,
    );
    assert(54nat * 6nat == 324nat);
}

/// The power of a base with the leading bits of an exponent.
proof fn lemma_power_1670836401704629_tb_part_1()
    ensures
        power_is(1306034492435694int, 4918004nat, 1670836401704629int, 121575770211131int),
{
    let n = 1670836401704629int;
    let b = 1306034492435694int;
    lemma_power_one(b, n);
    let e = 1nat;
    let a = 1306034492435694int;
    let q = 1020881573858180int;
    let r = 929988429746416int;
    lemma_power_square(b, n, e, a, q, r);
    let e = 2 * e;
    let a = r;
    let q = 517632054568498int;
    let r = 1164723820667814int;
    lemma_power_square(b, n, e, a, q, r);
    let e = 2 * e;
    let a = r;
    let q = 811917658154330int;
    let r = 379390978145026int;
    lemma_power_square(b, n, e, a, q, r);
    let e = 2 * e;
    let a = r;
    let q = 296556684467013int;
    let r = 1462909191054867int;
    lemma_power_times(b, n, e, a, q, r);
    let e = e + 1;
    let a = r;
    let q = 1280857478978443int;
    let r = 1174909460075042int;
    lemma_power_square(b, n, e, a, q, r);
    let e = 2 * e;
    let a = r;
    let q = 826180371678217int;
    let r = 1639908003935271int;
    lemma_power_square(b, n, e, a, q, r);
    let e = 2 * e;
    let a = r;
    let q = 1281858843496430int;
    let r = 1466651429988604int;
    lemma_power_times(b, n, e, a, q, r);
    let e = e + 1;
    let a = r;
    let q = 1287418932753108int;
    let r = 273156372131884int;
    lemma_power_square(b, n, e, a, q, r);
    let e = 2 * e;
    let a = r;
    let q = 213516801207391int;
    let r = 906184803354557int;
    lemma_power_times(b, n, e, a, q, r);
    let e = e + 1;
    let a = r;
    let q = 491472951506777int;
    let r = 235383406895516int;
    lemma_power_square(b, n, e, a, q, r);
    let e = 2 * e;
    let a = r;
    let q = 33160247278078int;
    let r = 485620358083194int;
    lemma_power_square(b, n, e, a, q, r);
    let e = 2 * e;
    let a = r;
    let q = 141143161559236int;
    let r = 572797866338192int;
    lemma_power_square(b, n, e, a, q, r);
    let e = 2 * e;
    let a = r;
    let q = 196367157997546int;
    let r = 1148266318988430int;
    lemma_power_square(b, n, e, a, q, r);
    let e = 2 * e;
    let a = r;
    let q = 789135033195384int;
    let r = 516700059632364int;
    lemma_power_square(b, n, e, a, q, r);
    let e = 2 * e;
    let a = r;
    let q = 403886400508733int;
    let r = 1253986550175559int;
    lemma_power_times(b, n, e, a, q, r);
    let e = e + 1;
    let a = r;
    let q = 941134791184172int;
    let r = 410071437030293int;
    lemma_power_square(b, n, e, a, q, r);
    let e = 2 * e;
    let a = r;
    let q = 100643356403134int;
    let r = 611823281758563int;
    lemma_power_square(b, n, e, a, q, r);
    let e = 2 * e;
    let a = r;
    let q = 478240902841631int;
    let r = 1605139084737823int;
    lemma_power_times(b, n, e, a, q, r);
    let e = e + 1;
    let a = r;
    let q = 1542024987440060int;
    let r = 546793684741589int;
    lemma_power_square(b, n, e, a, q, r);
    let e = 2 * e;
    let a = r;
    let q = 178942314979643int;
    let r = 1176351072377474int;
    lemma_power_square(b, n, e, a, q, r);
    let e = 2 * e;
    let a = r;
    let q = 919512571171702int;
    let r = 445724991948398int;
    lemma_power_times(b, n, e, a, q, r);
    let e = e + 1;
    let a = r;
    let q = 118904979712382int;
    let r = 1208961356750126int;
    lemma_power_square(b, n, e, a, q, r);
    let e = 2 * e;
    let a = r;
    let q = 945002892160261int;
    let r = 743353227849275int;
    lemma_power_times(b, n, e, a, q, r);
    let e = e + 1;
    let a = r;
    let q = 330717011426245int;
    let r = 283653609437520int;
    lemma_power_square(b, n, e, a, q, r);
    let e = 2 * e;
    let a = r;
    let q = 221722125189114int;
    let r = 1495161516630174int;
    lemma_power_times(b, n, e, a, q, r);
    let e = e + 1;
    let a = r;
    let q = 1337957419727701int;
    let r = 145215276042347int;
    lemma_power_square(b, n, e, a, q, r);
    let e = 2 * e;
    let a = r;
    let q = 113509712349086int;
    let r = 1516130408214724int;
    lemma_power_times(b, n, e, a, q, r);
    let e = e + 1;
    let a = r;
    let q = 1375748943683656int;
    let r = 1559499963552552int;
    lemma_power_square(b, n, e, a, q, r);
    let e = 2 * e;
    let a = r;
    let q = 1455582445917016int;
    let r = 1255032988645640int;
    lemma_power_square(b, n, e, a, q, r);
    let e = 2 * e;
    let a = r;
    let q = 981015478621122int;
    let r = 667622608900422int;
    lemma_power_times(b, n, e, a, q, r);
    let e = e + 1;
    let a = r;
    let q = 266764566213826int;
    let r = 552885003777530int;
    lemma_power_square(b, n, e, a, q, r);
    let e = 2 * e;
    let a = r;
    let q = 182951381170661int;
    let r = 121575770211131int;
    lemma_power_square(b, n, e, a, q, r);
    let e = 2 * e;
    let a = r;
}

/// A power of a base, computed from the bits of the exponent.
proof fn lemma_power_1670836401704629_tb()
    ensures
        power_is(1306034492435694int, 5156902474397nat, 1670836401704629int, 1322408984917241int),
{
    let n = 1670836401704629int;
    let b = 1306034492435694int;
    lemma_power_1670836401704629_tb_part_1();
    let e = 4918004nat;
    let a = 121575770211131int;
    let q = 95031535809358int;
    let r = 723070450391732int;
    lemma_power_times(b, n, e, a, q, r);
    let e = e + 1;
    let a = r;
    let q = 312915660501708int;
    let r = 1069175687953492int;
    lemma_power_square(b, n, e, a, q, r);
    let e = 2 * e;
    let a = r;
    let q = 684170305689154int;
    let r = 765784958100198int;
    lemma_power_square(b, n, e, a, q, r);
    let e = 2 * e;
    let a = r;
    let q = 598587370999884int;
    let r = 1316946162404376int;
    lemma_power_times(b, n, e, a, q, r);
    let e = e + 1;
    let a = r;
    let q = 1038011377356986int;
    let r = 787310282261182int;
    lemma_power_square(b, n, e, a, q, r);
    let e = 2 * e;
    let a = r;
    let q = 615412965526328int;
    let r = 1042057668457996int;
    lemma_power_times(b, n, e, a, q, r);
    let e = e + 1;
    let a = r;
    let q = 649904552764273int;
    let r = 615825206416299int;
    lemma_power_square(b, n, e, a, q, r);
    let e = 2 * e;
    let a = r;
    let q = 481369067654057int;
    let r = 836768583446653int;
    lemma_power_times(b, n, e, a, q, r);
    let e = e + 1;
    let a = r;
    let q = 419060574409903int;
    let r = 1024239918361422int;
    lemma_power_square(b, n, e, a, q, r);
    let e = 2 * e;
    let a = r;
    let q = 627869616256102int;
    let r = 703615594965926int;
    lemma_power_square(b, n, e, a, q, r);
    let e = 2 * e;
    let a = r;
    let q = 296303638689081int;
    let r = 1436769771581527int;
    lemma_power_square(b, n, e, a, q, r);
    let e = 2 * e;
    let a = r;
    let q = 1235493417802230int;
    let r = 1476112010129059int;
    lemma_power_square(b, n, e, a, q, r);
    let e = 2 * e;
    let a = r;
    let q = 1153825232656107int;
    let r = 1361232051212643int;
    lemma_power_times(b, n, e, a, q, r);
    let e = e + 1;
    let a = r;
    let q = 1108997083950380int;
    let r = 247037550736429int;
    lemma_power_square(b, n, e, a, q, r);
    let e = 2 * e;
    let a = r;
    let q = 36525150763768int;
    let r = 525583736589969int;
    lemma_power_square(b, n, e, a, q, r);
    let e = 2 * e;
    let a = r;
    let q = 165329330798663int;
    let r = 1535073237309934int;
    lemma_power_square(b, n, e, a, q, r);
    let e = 2 * e;
    let a = r;
    let q = 1199913165822991int;
    let r = 1197683963058857int;
    lemma_power_times(b, n, e, a, q, r);
    let e = e + 1;
    let a = r;
    let q = 858520244055558int;
    let r = 1105208664368467int;
    lemma_power_square(b, n, e, a, q, r);
    let e = 2 * e;
    let a = r;
    let q = 731062712392990int;
    let r = 1240532193779379int;
    lemma_power_square(b, n, e, a, q, r);
    let e = 2 * e;
    let a = r;
    let q = 969680713443783int;
    let r = 1390998818382519int;
    lemma_power_times(b, n, e, a, q, r);
    let e = e + 1;
    let a = r;
    let q = 1158029422131067int;
    let r = 1227614746176218int;
    lemma_power_square(b, n, e, a, q, r);
    let e = 2 * e;
    let a = r;
    let q = 901966202969831int;
    let r = 663401648735825int;
    lemma_power_square(b, n, e, a, q, r);
    let e = 2 * e;
    let a = r;
    let q = 263402058451927int;
    let r = 870580988560542int;
    lemma_power_square(b, n, e, a, q, r);
    let e = 2 * e;
    let a = r;
    let q = 680502769965286int;
    let r = 853971005277254int;
    lemma_power_times(b, n, e, a, q, r);
    let e = e + 1;
    let a = r;
    let q = 436467913381721int;
    let r = 1374953040094007int;
    lemma_power_square(b, n, e, a, q, r);
    let e = 2 * e;
    let a = r;
    let q = 1074752796868703int;
    let r = 1075777461959671int;
    lemma_power_times(b, n, e, a, q, r);
    let e = e + 1;
    let a = r;
    let q = 692645399920475int;
    let r = 1214760591049466int;
    lemma_power_square(b, n, e, a, q, r);
    let e = 2 * e;
    let a = r;
    let q = 949535951182034int;
    let r = 1022972898604018int;
    lemma_power_times(b, n, e, a, q, r);
    let e = e + 1;
    let a = r;
    let q = 626317184740928int;
    let r = 983686222388612int;
    lemma_power_square(b, n, e, a, q, r);
    let e = 2 * e;
    let a = r;
    let q = 579134248649340int;
    let r = 681241871491684int;
    lemma_power_square(b, n, e, a, q, r);
    let e = 2 * e;
    let a = r;
    let q = 532502991287395int;
    let r = 1322408984917241int;
    lemma_power_times(b, n, e, a, q, r);
    let e = e + 1;
    let a = r;
}

/// A power of the base of the certificate, as the power of a power.
proof fn lemma_node_1670836401704629_tb()
    ensures
        power_is(2int, 278472733617438nat, 1670836401704629int, 1322408984917241int),
{
    lemma_power_1670836401704629_root();
    lemma_power_1670836401704629_tb();
    lemma_power_of_power(
        2int,
        54nat,
        1670836401704629int,
        1306034492435694int,
        5156902474397nat,
        1322408984917241int,
    );
    assert(54nat * 5156902474397nat == 278472733617438nat);
}

/// A power of a base, computed from the bits of the exponent.
proof fn lemma_power_1670836401704629_tba()
    ensures
        power_is(1322408984917241int, 2nat, 1670836401704629int, 1322408984917240int),
{
    let n = 1670836401704629int;
    let b = 1322408984917241int;
    lemma_power_one(b, n);
    let e = 1nat;
    let a = 1322408984917241int;
    let q = 1046640785181429int;
    let r = 1322408984917240int;
    lemma_power_square(b, n, e, a, q, r);
    let e = 2 * e;
    let a = r;
}

/// A power of the base of the certificate, as the power of a power.
proof fn lemma_node_1670836401704629_tba()
    ensures
        power_is(2int, 556945467234876nat, 1670836401704629int, 1322408984917240int),
{
    lemma_node_1670836401704629_tb();
    lemma_power_1670836401704629_tba();
    lemma_power_of_power(
        2int,
        278472733617438nat,
        1670836401704629int,
        1322408984917241int,
        2nat,
        1322408984917240int,
    );
    assert(278472733617438nat * 2nat == 556945467234876nat);
}

/// A power of a base, computed from the bits of the exponent.
proof fn lemma_power_1670836401704629_tbb()
    ensures
        power_is(1322408984917241int, 3nat, 1670836401704629int, 1670836401704628int),
{
    let n = 1670836401704629int;
    let b = 1322408984917241int;
    lemma_power_one(b, n);
    let e = 1nat;
    let a = 1322408984917241int;
    let q = 1046640785181429int;
    let r = 1322408984917240int;
    lemma_power_square(b, n, e, a, q, r);
    let e = 2 * e;
    let a = r;
    let q = 1046640785181428int;
    let r = 1670836401704628int;
    lemma_power_times(b, n, e, a, q, r);
    let e = e + 1;
    let a = r;
}

/// A power of the base of the certificate, as the power of a power.
proof fn lemma_node_1670836401704629_tbb()
    ensures
        power_is(2int, 835418200852314nat, 1670836401704629int, 1670836401704628int),
{
    lemma_node_1670836401704629_tb();
    lemma_power_1670836401704629_tbb();
    lemma_power_of_power(
        2int,
        278472733617438nat,
        1670836401704629int,
        1322408984917241int,
        3nat,
        1670836401704628int,
    );
    assert(278472733617438nat * 3nat == 835418200852314nat);
}

/// A power of a base, computed from the bits of the exponent.
proof fn lemma_power_1670836401704629_full()
    ensures
        power_is(1670836401704628int, 2nat, 1670836401704629int, 1int),
{
    let n = 1670836401704629int;
    let b = 1670836401704628int;
    lemma_power_one(b, n);
    let e = 1nat;
    let a = 1670836401704628int;
    let q = 1670836401704627int;
    let r = 1int;
    lemma_power_square(b, n, e, a, q, r);
    let e = 2 * e;
    let a = r;
}

/// The certificate of 1670836401704629: base 2, and the prime factors of the
/// number before it.
pub proof fn lemma_certificate_1670836401704629() -> (factors: Seq<int>)
    ensures
        lucas_certificate(1670836401704629int, 2, factors),
{
    let n = 1670836401704629int;
    lemma_prime_2();
    lemma_node_1670836401704629_tbb();
    lemma_power_is(2int, 835418200852314nat, n, 1670836401704628int);
    lemma_prime_3();
    lemma_node_1670836401704629_tba();
    lemma_power_is(2int, 556945467234876nat, n, 1322408984917240int);
    lemma_prime_5156902474397();
    lemma_node_1670836401704629_ta();
    lemma_power_is(2int, 324nat, n, 11046204280772int);
    lemma_power_1670836401704629_full();
    lemma_power_of_power(2int, 835418200852314nat, n, 1670836401704628int, 2nat, 1);
    assert(835418200852314nat * 2nat == 1670836401704628nat);
    lemma_power_is(2int, 1670836401704628nat, n, 1);
    lemma_certified_empty(n, 2);
    let s = Seq::<int>::empty();
    lemma_certified_push(n, 2, s, 2int, 835418200852314nat);
    let s = s.push(2int);
    assert(product(s) == 2int);
    lemma_certified_push(n, 2, s, 2int, 835418200852314nat);
    let s = s.push(2int);
    assert(product(s) == 4int);
    lemma_certified_push(n, 2, s, 3int, 556945467234876nat);
    let s = s.push(3int);
    assert(product(s) == 12int);
    lemma_certified_push(n, 2, s, 3int, 556945467234876nat);
    let s = s.push(3int);
    assert(product(s) == 36int);
    lemma_certified_push(n, 2, s, 3int, 556945467234876nat);
    let s = s.push(3int);
    assert(product(s) == 108int);
    lemma_certified_push(n, 2, s, 3int, 556945467234876nat);
    let s = s.push(3int);
    assert(product(s) == 324int);
    lemma_certified_push(n, 2, s, 5156902474397int, 324nat);
    let s = s.push(5156902474397int);
    assert(product(s) == 1670836401704628int);
    lemma_certificate(n, 2, s);
    s
}

/// 1670836401704629 is prime.
pub proof fn lemma_prime_1670836401704629()
    ensures
        is_prime(1670836401704629int),
{
    let factors = lemma_certificate_1670836401704629();
    lemma_lucas(1670836401704629int, 2, factors);
}

/// A power of a base, computed from the bits of the exponent.
proof fn lemma_power_65865678001877903_root()
    ensures
        power_is(5int, 1nat, 65865678001877903int, 5int),
{
    let n = 65865678001877903int;
    let b = 5int;
    lemma_power_one(b, n);
    let e = 1nat;
    let a = 5int;
}

/// The power of a base with the leading bits of an exponent.
proof fn lemma_power_65865678001877903_ta_part_1()
    ensures
        power_is(5int, 25747554nat, 65865678001877903int, 36024834207355038int),
{
    let n = 65865678001877903int;
    let b = 5int;
    lemma_power_one(b, n);
    let e = 1nat;
    let a = 5int;
    let q = 0int;
    let r = 25int;
    lemma_power_square(b, n, e, a, q, r);
    let e = 2 * e;
    let a = r;
    let q = 0int;
    let r = 125int;
    lemma_power_times(b, n, e, a, q, r);
    let e = e + 1;
    let a = r;
    let q = 0int;
    let r = 15625int;
    lemma_power_square(b, n, e, a, q, r);
    let e = 2 * e;
    let a = r;
    let q = 0int;
    let r = 244140625int;
    lemma_power_square(b, n, e, a, q, r);
    let e = 2 * e;
    let a = r;
    let q = 0int;
    let r = 59604644775390625int;
    lemma_power_square(b, n, e, a, q, r);
    let e = 2 * e;
    let a = r;
    let q = 53938770336490108int;
    let r = 47011191554607101int;
    lemma_power_square(b, n, e, a, q, r);
    let e = 2 * e;
    let a = r;
    let q = 3int;
    let r = 37458923767401796int;
    lemma_power_times(b, n, e, a, q, r);
    let e = e + 1;
    let a = r;
    let q = 21303522750832584int;
    let r = 2820623742034264int;
    lemma_power_square(b, n, e, a, q, r);
    let e = 2 * e;
    let a = r;
    let q = 120790046280257int;
    let r = 36958267116560625int;
    lemma_power_square(b, n, e, a, q, r);
    let e = 2 * e;
    let a = r;
    let q = 20737864540316471int;
    let r = 19443937378550312int;
    lemma_power_square(b, n, e, a, q, r);
    let e = 2 * e;
    let a = r;
    let q = 5739965217851501int;
    let r = 64431849728014941int;
    lemma_power_square(b, n, e, a, q, r);
    let e = 2 * e;
    let a = r;
    let q = 4int;
    let r = 58696536632563093int;
    lemma_power_times(b, n, e, a, q, r);
    let e = e + 1;
    let a = r;
    let q = 52307719546431941int;
    let r = 22947361444426926int;
    lemma_power_square(b, n, e, a, q, r);
    let e = 2 * e;
    let a = r;
    let q = 1int;
    let r = 48871129220256727int;
    lemma_power_times(b, n, e, a, q, r);
    let e = e + 1;
    let a = r;
    let q = 36261484641438524int;
    let r = 55810708460217357int;
    lemma_power_square(b, n, e, a, q, r);
    let e = 2 * e;
    let a = r;
    let q = 4int;
    let r = 15590830293575173int;
    lemma_power_times(b, n, e, a, q, r);
    let e = e + 1;
    let a = r;
    let q = 3690449967525286int;
    let r = 63514288564824671int;
    lemma_power_square(b, n, e, a, q, r);
    let e = 2 * e;
    let a = r;
    let q = 61246843185623965int;
    let r = 27493322169512846int;
    lemma_power_square(b, n, e, a, q, r);
    let e = 2 * e;
    let a = r;
    let q = 11476125151176239int;
    let r = 16088617646272899int;
    lemma_power_square(b, n, e, a, q, r);
    let e = 2 * e;
    let a = r;
    let q = 3929870998376177int;
    let r = 2959556363947370int;
    lemma_power_square(b, n, e, a, q, r);
    let e = 2 * e;
    let a = r;
    let q = 132982368618928int;
    let r = 33250967539168916int;
    lemma_power_square(b, n, e, a, q, r);
    let e = 2 * e;
    let a = r;
    let q = 16786084586563313int;
    let r = 18112088975442417int;
    lemma_power_square(b, n, e, a, q, r);
    let e = 2 * e;
    let a = r;
    let q = 4980557051959439int;
    let r = 61497113096425472int;
    lemma_power_square(b, n, e, a, q, r);
    let e = 2 * e;
    let a = r;
    let q = 4int;
    let r = 44022853474615748int;
    lemma_power_times(b, n, e, a, q, r);
    let e = e + 1;
    let a = r;
    let q = 29423695114657940int;
    let r = 35127974760099684int;
    lemma_power_square(b, n, e, a, q, r);
    let e = 2 * e;
    let a = r;
    let q = 2int;
    let r = 43908517796742614int;
    lemma_power_times(b, n, e, a, q, r);
    let e = e + 1;
    let a = r;
    let q = 29271055784955172int;
    let r = 50827318291188680int;
    lemma_power_square(b, n, e, a, q, r);
    let e = 2 * e;
    let a = r;
    let q = 39222495889287700int;
    let r = 17252746320449300int;
    lemma_power_square(b, n, e, a, q, r);
    let e = 2 * e;
    let a = r;
    let q = 4519155721577637int;
    let r = 33513450061234789int;
    lemma_power_square(b, n, e, a, q, r);
    let e = 2 * e;
    let a = r;
    let q = 17052148692295489int;
    let r = 42061549608194954int;
    lemma_power_square(b, n, e, a, q, r);
    let e = 2 * e;
    let a = r;
    let q = 3int;
    let r = 12710714035341061int;
    lemma_power_times(b, n, e, a, q, r);
    let e = e + 1;
    let a = r;
    let q = 2452905005906261int;
    let r = 36024834207355038int;
    lemma_power_square(b, n, e, a, q, r);
    let e = 2 * e;
    let a = r;
}

/// A power of a base, computed from the bits of the exponent.
proof fn lemma_power_65865678001877903_ta()
    ensures
        power_is(5int, 102990218nat, 65865678001877903int, 18968088485270649int),
{
    let n = 65865678001877903int;
    let b = 5int;
    lemma_power_65865678001877903_ta_part_1();
    let e = 25747554nat;
    let a = 36024834207355038int;
    let q = 19703565180493796int;
    let r = 56526662942991656int;
    lemma_power_square(b, n, e, a, q, r);
    let e = 2 * e;
    let a = r;
    let q = 4int;
    let r = 19170602707446668int;
    lemma_power_times(b, n, e, a, q, r);
    let e = e + 1;
    let a = r;
    let q = 5579719503628025int;
    let r = 18968088485270649int;
    lemma_power_square(b, n, e, a, q, r);
    let e = 2 * e;
    let a = r;
}

/// A power of the base of the certificate, as the power of a power.
proof fn lemma_node_65865678001877903_ta()
    ensures
        power_is(5int, 102990218nat, 65865678001877903int, 18968088485270649int),
{
    lemma_power_65865678001877903_root();
    lemma_power_65865678001877903_ta();
    lemma_power_of_power(
        5int,
        1nat,
        65865678001877903int,
        5int,
        102990218nat,
        18968088485270649int,
    );
    assert(1nat * 102990218nat == 102990218nat);
}

/// The power of a base with the leading bits of an exponent.
proof fn lemma_power_65865678001877903_tb_part_1()
    ensures
        power_is(5int, 19985416nat, 65865678001877903int, 48267802027446870int),
{
    let n = 65865678001877903int;
    let b = 5int;
    lemma_power_one(b, n);
    let e = 1nat;
    let a = 5int;
    let q = 0int;
    let r = 25int;
    lemma_power_square(b, n, e, a, q, r);
    let e = 2 * e;
    let a = r;
    let q = 0int;
    let r = 625int;
    lemma_power_square(b, n, e, a, q, r);
    let e = 2 * e;
    let a = r;
    let q = 0int;
    let r = 390625int;
    lemma_power_square(b, n, e, a, q, r);
    let e = 2 * e;
    let a = r;
    let q = 0int;
    let r = 1953125int;
    lemma_power_times(b, n, e, a, q, r);
    let e = e + 1;
    let a = r;
    let q = 0int;
    let r = 3814697265625int;
    lemma_power_square(b, n, e, a, q, r);
    let e = 2 * e;
    let a = r;
    let q = 0int;
    let r = 19073486328125int;
    lemma_power_times(b, n, e, a, q, r);
    let e = e + 1;
    let a = r;
    let q = 5523330082int;
    let r = 30073421035037579int;
    lemma_power_square(b, n, e, a, q, r);
    let e = 2 * e;
    let a = r;
    let q = 13731137068457034int;
    let r = 27629831272661539int;
    lemma_power_square(b, n, e, a, q, r);
    let e = 2 * e;
    let a = r;
    let q = 11590369966797881int;
    let r = 48324055208724978int;
    lemma_power_square(b, n, e, a, q, r);
    let e = 2 * e;
    let a = r;
    let q = 35454190750899431int;
    let r = 13254792146927291int;
    lemma_power_square(b, n, e, a, q, r);
    let e = 2 * e;
    let a = r;
    let q = 2667390971869086int;
    let r = 6106018968392023int;
    lemma_power_square(b, n, e, a, q, r);
    let e = 2 * e;
    let a = r;
    let q = 0int;
    let r = 30530094841960115int;
    lemma_power_times(b, n, e, a, q, r);
    let e = e + 1;
    let a = r;
    let q = 14151326143374775int;
    let r = 38007383330716400int;
    lemma_power_square(b, n, e, a, q, r);
    let e = 2 * e;
    let a = r;
    let q = 2int;
    let r = 58305560649826194int;
    lemma_power_times(b, n, e, a, q, r);
    let e = e + 1;
    let a = r;
    let q = 51613199860990364int;
    let r = 50766017020998944int;
    lemma_power_square(b, n, e, a, q, r);
    let e = 2 * e;
    let a = r;
    let q = 3int;
    let r = 56233051099361011int;
    lemma_power_times(b, n, e, a, q, r);
    let e = e + 1;
    let a = r;
    let q = 48009162463236012int;
    let r = 53208398210299285int;
    lemma_power_square(b, n, e, a, q, r);
    let e = 2 * e;
    let a = r;
    let q = 4int;
    let r = 2579279043984813int;
    lemma_power_times(b, n, e, a, q, r);
    let e = e + 1;
    let a = r;
    let q = 101003748667849int;
    let r = 64485061175004322int;
    lemma_power_square(b, n, e, a, q, r);
    let e = 2 * e;
    let a = r;
    let q = 63133383590547590int;
    let r = 12432936627775914int;
    lemma_power_square(b, n, e, a, q, r);
    let e = 2 * e;
    let a = r;
    let q = 0int;
    let r = 62164683138879570int;
    lemma_power_times(b, n, e, a, q, r);
    let e = e + 1;
    let a = r;
    let q = 58671647312992333int;
    let r = 23389370722267201int;
    lemma_power_square(b, n, e, a, q, r);
    let e = 2 * e;
    let a = r;
    let q = 8305731898304497int;
    let r = 23573661930544610int;
    lemma_power_square(b, n, e, a, q, r);
    let e = 2 * e;
    let a = r;
    let q = 8437133780051032int;
    let r = 12831036026906204int;
    lemma_power_square(b, n, e, a, q, r);
    let e = 2 * e;
    let a = r;
    let q = 2499564120771230int;
    let r = 59213603158558926int;
    lemma_power_square(b, n, e, a, q, r);
    let e = 2 * e;
    let a = r;
    let q = 53233351654245972int;
    let r = 22361109540716760int;
    lemma_power_square(b, n, e, a, q, r);
    let e = 2 * e;
    let a = r;
    let q = 7591498866491255int;
    let r = 19206524017659335int;
    lemma_power_square(b, n, e, a, q, r);
    let e = 2 * e;
    let a = r;
    let q = 5600649321948942int;
    let r = 60938620228613599int;
    lemma_power_square(b, n, e, a, q, r);
    let e = 2 * e;
    let a = r;
    let q = 4int;
    let r = 41230389135556383int;
    lemma_power_times(b, n, e, a, q, r);
    let e = e + 1;
    let a = r;
    let q = 25809268800374885int;
    let r = 65416446574376534int;
    lemma_power_square(b, n, e, a, q, r);
    let e = 2 * e;
    let a = r;
    let q = 64970279092796273int;
    let r = 51027437410397637int;
    lemma_power_square(b, n, e, a, q, r);
    let e = 2 * e;
    let a = r;
    let q = 39531960311678733int;
    let r = 48267802027446870int;
    lemma_power_square(b, n, e, a, q, r);
    let e = 2 * e;
    let a = r;
}

/// A power of a base, computed from the bits of the exponent.
proof fn lemma_power_65865678001877903_tb()
    ensures
        power_is(5int, 639533339nat, 65865678001877903int, 14291333922002103int),
{
    let n = 65865678001877903int;
    let b = 5int;
    lemma_power_65865678001877903_tb_part_1();
    let e = 19985416nat;
    let a = 48267802027446870int;
    let q = 35371695596823273int;
    let r = 38512355457960381int;
    lemma_power_square(b, n, e, a, q, r);
    let e = 2 * e;
    let a = r;
    let q = 2int;
    let r = 60830421286046099int;
    lemma_power_times(b, n, e, a, q, r);
    let e = e + 1;
    let a = r;
    let q = 56180096616212613int;
    let r = 17605239238527262int;
    lemma_power_square(b, n, e, a, q, r);
    let e = 2 * e;
    let a = r;
    let q = 1int;
    let r = 22160518190758407int;
    lemma_power_times(b, n, e, a, q, r);
    let e = e + 1;
    let a = r;
    let q = 7455909988035540int;
    let r = 54408039936505029int;
    lemma_power_square(b, n, e, a, q, r);
    let e = 2 * e;
    let a = r;
    let q = 44943510786420912int;
    let r = 44103243152383305int;
    lemma_power_square(b, n, e, a, q, r);
    let e = 2 * e;
    let a = r;
    let q = 3int;
    let r = 22919181756282816int;
    lemma_power_times(b, n, e, a, q, r);
    let e = e + 1;
    let a = r;
    let q = 7975153498952071int;
    let r = 55550809185902743int;
    lemma_power_square(b, n, e, a, q, r);
    let e = 2 * e;
    let a = r;
    let q = 4int;
    let r = 14291333922002103int;
    lemma_power_times(b, n, e, a, q, r);
    let e = e + 1;
    let a = r;
}

/// A power of the base of the certificate, as the power of a power.
proof fn lemma_node_65865678001877903_tb()
    ensures
        power_is(5int, 639533339nat, 65865678001877903int, 14291333922002103int),
{
    lemma_power_65865678001877903_root();
    lemma_power_65865678001877903_tb();
    lemma_power_of_power(
        5int,
        1nat,
        65865678001877903int,
        5int,
        639533339nat,
        14291333922002103int,
    );
    assert(1nat * 639533339nat == 639533339nat);
}

/// A power of a base, computed from the bits of the exponent.
proof fn lemma_power_65865678001877903_tba()
    ensures
        power_is(14291333922002103int, 31457nat, 65865678001877903int, 48552362173290784int),
{
    let n = 65865678001877903int;
    let b = 14291333922002103int;
    lemma_power_one(b, n);
    let e = 1nat;
    let a = 14291333922002103int;
    let q = 3100890045713107int;
    let r = 54673415155647988int;
    lemma_power_square(b, n, e, a, q, r);
    let e = 2 * e;
    let a = r;
    let q = 11862870866118445int;
    let r = 49968714837497929int;
    lemma_power_times(b, n, e, a, q, r);
    let e = e + 1;
    let a = r;
    let q = 37908551741318097int;
    let r = 25373950600978450int;
    lemma_power_square(b, n, e, a, q, r);
    let e = 2 * e;
    let a = r;
    let q = 5505562410647774int;
    let r = 4425680070942428int;
    lemma_power_times(b, n, e, a, q, r);
    let e = e + 1;
    let a = r;
    let q = 297372541884083int;
    let r = 13543112345417235int;
    lemma_power_square(b, n, e, a, q, r);
    let e = 2 * e;
    let a = r;
    let q = 2938543210107523int;
    let r = 38558723534680936int;
    lemma_power_times(b, n, e, a, q, r);
    let e = e + 1;
    let a = r;
    let q = 22572836198263500int;
    let r = 48124931700395596int;
    lemma_power_square(b, n, e, a, q, r);
    let e = 2 * e;
    let a = r;
    let q = 35162608530374635int;
    let r = 54637196778004811int;
    lemma_power_square(b, n, e, a, q, r);
    let e = 2 * e;
    let a = r;
    let q = 11855012313003771int;
    let r = 4288958165545320int;
    lemma_power_times(b, n, e, a, q, r);
    let e = e + 1;
    let a = r;
    let q = 279282969580506int;
    let r = 6958880832943482int;
    lemma_power_square(b, n, e, a, q, r);
    let e = 2 * e;
    let a = r;
    let q = 735223927182947int;
    let r = 56423569568564183int;
    lemma_power_square(b, n, e, a, q, r);
    let e = 2 * e;
    let a = r;
    let q = 12242614032648026int;
    let r = 62637538590507371int;
    lemma_power_times(b, n, e, a, q, r);
    let e = e + 1;
    let a = r;
    let q = 59567613356465228int;
    let r = 3814621084274757int;
    lemma_power_square(b, n, e, a, q, r);
    let e = 2 * e;
    let a = r;
    let q = 827684848241081int;
    let r = 58253062713080828int;
    lemma_power_times(b, n, e, a, q, r);
    let e = e + 1;
    let a = r;
    let q = 51520297344504337int;
    let r = 26085316533200273int;
    lemma_power_square(b, n, e, a, q, r);
    let e = 2 * e;
    let a = r;
    let q = 5659912420949475int;
    let r = 17031141744223194int;
    lemma_power_times(b, n, e, a, q, r);
    let e = e + 1;
    let a = r;
    let q = 4403807839092644int;
    let r = 33011782894116104int;
    lemma_power_square(b, n, e, a, q, r);
    let e = 2 * e;
    let a = r;
    let q = 16545458012550722int;
    let r = 36160604393642850int;
    lemma_power_square(b, n, e, a, q, r);
    let e = 2 * e;
    let a = r;
    let q = 19852362410605744int;
    let r = 57335097597647668int;
    lemma_power_square(b, n, e, a, q, r);
    let e = 2 * e;
    let a = r;
    let q = 49909353646037902int;
    let r = 36522815551558718int;
    lemma_power_square(b, n, e, a, q, r);
    let e = 2 * e;
    let a = r;
    let q = 20252065966361842int;
    let r = 10426054599626198int;
    lemma_power_square(b, n, e, a, q, r);
    let e = 2 * e;
    let a = r;
    let q = 2262213527476870int;
    let r = 48552362173290784int;
    lemma_power_times(b, n, e, a, q, r);
    let e = e + 1;
    let a = r;
}

/// A power of the base of the certificate, as the power of a power.
proof fn lemma_node_65865678001877903_tba()
    ensures
        power_is(5int, 20117800244923nat, 65865678001877903int, 48552362173290784int),
{
    lemma_node_65865678001877903_tb();
    lemma_power_65865678001877903_tba();
    lemma_power_of_power(
        5int,
        639533339nat,
        65865678001877903int,
        14291333922002103int,
        31457nat,
        48552362173290784int,
    );
    assert(639533339nat * 31457nat == 20117800244923nat);
}

/// A power of a base, computed from the bits of the exponent.
proof fn lemma_power_65865678001877903_tbaa()
    ensures
        power_is(48552362173290784int, 2nat, 65865678001877903int, 56641079936670322int),
{
    let n = 65865678001877903int;
    let b = 48552362173290784int;
    lemma_power_one(b, n);
    let e = 1nat;
    let a = 48552362173290784int;
    let q = 35789988718239378int;
    let r = 56641079936670322int;
    lemma_power_square(b, n, e, a, q, r);
    let e = 2 * e;
    let a = r;
}

/// A power of the base of the certificate, as the power of a power.
proof fn lemma_node_65865678001877903_tbaa()
    ensures
        power_is(5int, 40235600489846nat, 65865678001877903int, 56641079936670322int),
{
    lemma_node_65865678001877903_tba();
    lemma_power_65865678001877903_tbaa();
    lemma_power_of_power(
        5int,
        20117800244923nat,
        65865678001877903int,
        48552362173290784int,
        2nat,
        56641079936670322int,
    );
    assert(20117800244923nat * 2nat == 40235600489846nat);
}

/// A power of a base, computed from the bits of the exponent.
proof fn lemma_power_65865678001877903_tbab()
    ensures
        power_is(48552362173290784int, 1637nat, 65865678001877903int, 65865678001877902int),
{
    let n = 65865678001877903int;
    let b = 48552362173290784int;
    lemma_power_one(b, n);
    let e = 1nat;
    let a = 48552362173290784int;
    let q = 35789988718239378int;
    let r = 56641079936670322int;
    lemma_power_square(b, n, e, a, q, r);
    let e = 2 * e;
    let a = r;
    let q = 41752522867723680int;
    let r = 9426927547069408int;
    lemma_power_times(b, n, e, a, q, r);
    let e = e + 1;
    let a = r;
    let q = 1349215033893105int;
    let r = 10273386205911649int;
    lemma_power_square(b, n, e, a, q, r);
    let e = 2 * e;
    let a = r;
    let q = 1602389398205338int;
    let r = 44099413195052987int;
    lemma_power_square(b, n, e, a, q, r);
    let e = 2 * e;
    let a = r;
    let q = 29526125034233554int;
    let r = 55899155443864907int;
    lemma_power_square(b, n, e, a, q, r);
    let e = 2 * e;
    let a = r;
    let q = 41205619111887498int;
    let r = 44324836855960394int;
    lemma_power_times(b, n, e, a, q, r);
    let e = e + 1;
    let a = r;
    let q = 29828754852436035int;
    let r = 628579909200631int;
    lemma_power_square(b, n, e, a, q, r);
    let e = 2 * e;
    let a = r;
    let q = 463352694942169int;
    let r = 8820976175293097int;
    lemma_power_times(b, n, e, a, q, r);
    let e = e + 1;
    let a = r;
    let q = 1181337884092986int;
    let r = 58041953985163051int;
    lemma_power_square(b, n, e, a, q, r);
    let e = 2 * e;
    let a = r;
    let q = 51147555519275681int;
    let r = 31574410696451658int;
    lemma_power_square(b, n, e, a, q, r);
    let e = 2 * e;
    let a = r;
    let q = 15136007721650977int;
    let r = 41012554396287733int;
    lemma_power_square(b, n, e, a, q, r);
    let e = 2 * e;
    let a = r;
    let q = 30232079211931565int;
    let r = 43376300019444477int;
    lemma_power_times(b, n, e, a, q, r);
    let e = e + 1;
    let a = r;
    let q = 28565763846281445int;
    let r = 48399354221393694int;
    lemma_power_square(b, n, e, a, q, r);
    let e = 2 * e;
    let a = r;
    let q = 35564766963776679int;
    let r = 2063580626141499int;
    lemma_power_square(b, n, e, a, q, r);
    let e = 2 * e;
    let a = r;
    let q = 1521152092769038int;
    let r = 65865678001877902int;
    lemma_power_times(b, n, e, a, q, r);
    let e = e + 1;
    let a = r;
}

/// A power of the base of the certificate, as the power of a power.
proof fn lemma_node_65865678001877903_tbab()
    ensures
        power_is(5int, 32932839000938951nat, 65865678001877903int, 65865678001877902int),
{
    lemma_node_65865678001877903_tba();
    lemma_power_65865678001877903_tbab();
    lemma_power_of_power(
        5int,
        20117800244923nat,
        65865678001877903int,
        48552362173290784int,
        1637nat,
        65865678001877902int,
    );
    assert(20117800244923nat * 1637nat == 32932839000938951nat);
}

/// A power of a base, computed from the bits of the exponent.
proof fn lemma_power_65865678001877903_tbb()
    ensures
        power_is(14291333922002103int, 3274nat, 65865678001877903int, 55498337682647256int),
{
    let n = 65865678001877903int;
    let b = 14291333922002103int;
    lemma_power_one(b, n);
    let e = 1nat;
    let a = 14291333922002103int;
    let q = 3100890045713107int;
    let r = 54673415155647988int;
    lemma_power_square(b, n, e, a, q, r);
    let e = 2 * e;
    let a = r;
    let q = 11862870866118445int;
    let r = 49968714837497929int;
    lemma_power_times(b, n, e, a, q, r);
    let e = e + 1;
    let a = r;
    let q = 37908551741318097int;
    let r = 25373950600978450int;
    lemma_power_square(b, n, e, a, q, r);
    let e = 2 * e;
    let a = r;
    let q = 9775005566367025int;
    let r = 33184050029053925int;
    lemma_power_square(b, n, e, a, q, r);
    let e = 2 * e;
    let a = r;
    let q = 16718588644898757int;
    let r = 41702363247439054int;
    lemma_power_square(b, n, e, a, q, r);
    let e = 2 * e;
    let a = r;
    let q = 9048451584887464int;
    let r = 47690492229022570int;
    lemma_power_times(b, n, e, a, q, r);
    let e = e + 1;
    let a = r;
    let q = 34530625327831848int;
    let r = 33852262158550156int;
    lemma_power_square(b, n, e, a, q, r);
    let e = 2 * e;
    let a = r;
    let q = 7345160593491537int;
    let r = 7207425725171157int;
    lemma_power_times(b, n, e, a, q, r);
    let e = e + 1;
    let a = r;
    let q = 788680647641369int;
    let r = 42567227274949442int;
    lemma_power_square(b, n, e, a, q, r);
    let e = 2 * e;
    let a = r;
    let q = 27510061276914791int;
    let r = 13826463539348091int;
    lemma_power_square(b, n, e, a, q, r);
    let e = 2 * e;
    let a = r;
    let q = 2902438717771517int;
    let r = 24891683980255430int;
    lemma_power_square(b, n, e, a, q, r);
    let e = 2 * e;
    let a = r;
    let q = 5400921670200348int;
    let r = 28331928693059046int;
    lemma_power_times(b, n, e, a, q, r);
    let e = e + 1;
    let a = r;
    let q = 12186896238215245int;
    let r = 31504674119198881int;
    lemma_power_square(b, n, e, a, q, r);
    let e = 2 * e;
    let a = r;
    let q = 15069221504538695int;
    let r = 28666713502695576int;
    lemma_power_square(b, n, e, a, q, r);
    let e = 2 * e;
    let a = r;
    let q = 6220016062109137int;
    let r = 4503656306096617int;
    lemma_power_times(b, n, e, a, q, r);
    let e = e + 1;
    let a = r;
    let q = 307943692963511int;
    let r = 55498337682647256int;
    lemma_power_square(b, n, e, a, q, r);
    let e = 2 * e;
    let a = r;
}

/// A power of the base of the certificate, as the power of a power.
proof fn lemma_node_65865678001877903_tbb()
    ensures
        power_is(5int, 2093832151886nat, 65865678001877903int, 55498337682647256int),
{
    lemma_node_65865678001877903_tb();
    lemma_power_65865678001877903_tbb();
    lemma_power_of_power(
        5int,
        639533339nat,
        65865678001877903int,
        14291333922002103int,
        3274nat,
        55498337682647256int,
    );
    assert(639533339nat * 3274nat == 2093832151886nat);
}

/// A power of a base, computed from the bits of the exponent.
proof fn lemma_power_65865678001877903_tbba()
    ensures
        power_is(55498337682647256int, 83nat, 65865678001877903int, 43783936274874531int),
{
    let n = 65865678001877903int;
    let b = 55498337682647256int;
    lemma_power_one(b, n);
    let e = 1nat;
    let a = 55498337682647256int;
    let q = 46762829731280202int;
    let r = 26286003839153130int;
    lemma_power_square(b, n, e, a, q, r);
    let e = 2 * e;
    let a = r;
    let q = 10490349735901499int;
    let r = 57365334956120303int;
    lemma_power_square(b, n, e, a, q, r);
    let e = 2 * e;
    let a = r;
    let q = 48335959292518981int;
    let r = 31355098976861725int;
    lemma_power_times(b, n, e, a, q, r);
    let e = e + 1;
    let a = r;
    let q = 14926472506982539int;
    let r = 61010207739039908int;
    lemma_power_square(b, n, e, a, q, r);
    let e = 2 * e;
    let a = r;
    let q = 56512671869174105int;
    let r = 40952569957346649int;
    lemma_power_square(b, n, e, a, q, r);
    let e = 2 * e;
    let a = r;
    let q = 25462623888325494int;
    let r = 31912478241370119int;
    lemma_power_square(b, n, e, a, q, r);
    let e = 2 * e;
    let a = r;
    let q = 26889414144938980int;
    let r = 11803657070384524int;
    lemma_power_times(b, n, e, a, q, r);
    let e = e + 1;
    let a = r;
    let q = 2115309892221351int;
    let r = 7279007066999623int;
    lemma_power_square(b, n, e, a, q, r);
    let e = 2 * e;
    let a = r;
    let q = 6133282226096619int;
    let r = 43783936274874531int;
    lemma_power_times(b, n, e, a, q, r);
    let e = e + 1;
    let a = r;
}

/// A power of the base of the certificate, as the power of a power.
proof fn lemma_node_65865678001877903_tbba()
    ensures
        power_is(5int, 173788068606538nat, 65865678001877903int, 43783936274874531int),
{
    lemma_node_65865678001877903_tbb();
    lemma_power_65865678001877903_tbba();
    lemma_power_of_power(
        5int,
        2093832151886nat,
        65865678001877903int,
        55498337682647256int,
        83nat,
        43783936274874531int,
    );
    assert(2093832151886nat * 83nat == 173788068606538nat);
}

/// A power of a base, computed from the bits of the exponent.
proof fn lemma_power_65865678001877903_tbbb()
    ensures
        power_is(55498337682647256int, 379nat, 65865678001877903int, 46316002665751102int),
{
    let n = 65865678001877903int;
    let b = 55498337682647256int;
    lemma_power_one(b, n);
    let e = 1nat;
    let a = 55498337682647256int;
    let q = 46762829731280202int;
    let r = 26286003839153130int;
    lemma_power_square(b, n, e, a, q, r);
    let e = 2 * e;
    let a = r;
    let q = 10490349735901499int;
    let r = 57365334956120303int;
    lemma_power_square(b, n, e, a, q, r);
    let e = 2 * e;
    let a = r;
    let q = 48335959292518981int;
    let r = 31355098976861725int;
    lemma_power_times(b, n, e, a, q, r);
    let e = e + 1;
    let a = r;
    let q = 14926472506982539int;
    let r = 61010207739039908int;
    lemma_power_square(b, n, e, a, q, r);
    let e = 2 * e;
    let a = r;
    let q = 51407124528394867int;
    let r = 11630480964768547int;
    lemma_power_times(b, n, e, a, q, r);
    let e = e + 1;
    let a = r;
    let q = 2053696121794827int;
    let r = 12447556409483428int;
    lemma_power_square(b, n, e, a, q, r);
    let e = 2 * e;
    let a = r;
    let q = 10488295420228051int;
    let r = 14730199984016515int;
    lemma_power_times(b, n, e, a, q, r);
    let e = e + 1;
    let a = r;
    let q = 3294261869784955int;
    let r = 59238927016395860int;
    lemma_power_square(b, n, e, a, q, r);
    let e = 2 * e;
    let a = r;
    let q = 49914645612847074int;
    let r = 37745246479954338int;
    lemma_power_times(b, n, e, a, q, r);
    let e = e + 1;
    let a = r;
    let q = 21630440542825437int;
    let r = 30672483048399633int;
    lemma_power_square(b, n, e, a, q, r);
    let e = 2 * e;
    let a = r;
    let q = 14283633675304148int;
    let r = 377903789093045int;
    lemma_power_square(b, n, e, a, q, r);
    let e = 2 * e;
    let a = r;
    let q = 318421258763020int;
    let r = 2557880046387460int;
    lemma_power_times(b, n, e, a, q, r);
    let e = e + 1;
    let a = r;
    let q = 99334745047649int;
    let r = 29814645230051553int;
    lemma_power_square(b, n, e, a, q, r);
    let e = 2 * e;
    let a = r;
    let q = 25121782680481222int;
    let r = 46316002665751102int;
    lemma_power_times(b, n, e, a, q, r);
    let e = e + 1;
    let a = r;
}

/// A power of the base of the certificate, as the power of a power.
proof fn lemma_node_65865678001877903_tbbb()
    ensures
        power_is(5int, 793562385564794nat, 65865678001877903int, 46316002665751102int),
{
    lemma_node_65865678001877903_tbb();
    lemma_power_65865678001877903_tbbb();
    lemma_power_of_power(
        5int,
        2093832151886nat,
        65865678001877903int,
        55498337682647256int,
        379nat,
        46316002665751102int,
    );
    assert(2093832151886nat * 379nat == 793562385564794nat);
}

/// A power of a base, computed from the bits of the exponent.
proof fn lemma_power_65865678001877903_full()
    ensures
        power_is(65865678001877902int, 2nat, 65865678001877903int, 1int),
{
    let n = 65865678001877903int;
    let b = 65865678001877902int;
    lemma_power_one(b, n);
    let e = 1nat;
    let a = 65865678001877902int;
    let q = 65865678001877901int;
    let r = 1int;
    lemma_power_square(b, n, e, a, q, r);
    let e = 2 * e;
    let a = r;
}

/// The certificate of 65865678001877903: base 5, and the prime factors of the
/// number before it.
pub proof fn lemma_certificate_65865678001877903() -> (factors: Seq<int>)
    ensures
        lucas_certificate(65865678001877903int, 5, factors),
{
    let n = 65865678001877903int;
    lemma_prime_2();
    lemma_node_65865678001877903_tbab();
    lemma_power_is(5int, 32932839000938951nat, n, 65865678001877902int);
    lemma_prime_83();
    lemma_node_65865678001877903_tbbb();
    lemma_power_is(5int, 793562385564794nat, n, 46316002665751102int);
    lemma_prime_379();
    lemma_node_65865678001877903_tbba();
    lemma_power_is(5int, 173788068606538nat, n, 43783936274874531int);
    lemma_prime_1637();
    lemma_node_65865678001877903_tbaa();
    lemma_power_is(5int, 40235600489846nat, n, 56641079936670322int);
    lemma_prime_639533339();
    lemma_node_65865678001877903_ta();
    lemma_power_is(5int, 102990218nat, n, 18968088485270649int);
    lemma_power_65865678001877903_full();
    lemma_power_of_power(5int, 32932839000938951nat, n, 65865678001877902int, 2nat, 1);
    assert(32932839000938951nat * 2nat == 65865678001877902nat);
    lemma_power_is(5int, 65865678001877902nat, n, 1);
    lemma_certified_empty(n, 5);
    let s = Seq::<int>::empty();
    lemma_certified_push(n, 5, s, 2int, 32932839000938951nat);
    let s = s.push(2int);
    assert(product(s) == 2int);
    lemma_certified_push(n, 5, s, 83int, 793562385564794nat);
    let s = s.push(83int);
    assert(product(s) == 166int);
    lemma_certified_push(n, 5, s, 379int, 173788068606538nat);
    let s = s.push(379int);
    assert(product(s) == 62914int);
    lemma_certified_push(n, 5, s, 1637int, 40235600489846nat);
    let s = s.push(1637int);
    assert(product(s) == 102990218int);
    lemma_certified_push(n, 5, s, 639533339int, 102990218nat);
    let s = s.push(639533339int);
    assert(product(s) == 65865678001877902int);
    lemma_certificate(n, 5, s);
    s
}

/// 65865678001877903 is prime.
pub proof fn lemma_prime_65865678001877903()
    ensures
        is_prime(65865678001877903int),
{
    let factors = lemma_certificate_65865678001877903();
    lemma_lucas(65865678001877903int, 5, factors);
}

/// A power of a base, computed from the bits of the exponent.
proof fn lemma_power_13818364434197438864469338081_root()
    ensures
        power_is(3int, 16nat, 13818364434197438864469338081int, 43046721int),
{
    let n = 13818364434197438864469338081int;
    let b = 3int;
    lemma_power_one(b, n);
    let e = 1nat;
    let a = 3int;
    let q = 0int;
    let r = 9int;
    lemma_power_square(b, n, e, a, q, r);
    let e = 2 * e;
    let a = r;
    let q = 0int;
    let r = 81int;
    lemma_power_square(b, n, e, a, q, r);
    let e = 2 * e;
    let a = r;
    let q = 0int;
    let r = 6561int;
    lemma_power_square(b, n, e, a, q, r);
    let e = 2 * e;
    let a = r;
    let q = 0int;
    let r = 43046721int;
    lemma_power_square(b, n, e, a, q, r);
    let e = 2 * e;
    let a = r;
}

/// The power of a base with the leading bits of an exponent.
proof fn lemma_power_13818364434197438864469338081_ta_part_1()
    ensures
        power_is(
            43046721int,
            6402469nat,
            13818364434197438864469338081int,
            3440141556010858486011774700int,
        ),
{
    let n = 13818364434197438864469338081int;
    let b = 43046721int;
    lemma_power_one(b, n);
    let e = 1nat;
    let a = 43046721int;
    let q = 0int;
    let r = 1853020188851841int;
    lemma_power_square(b, n, e, a, q, r);
    let e = 2 * e;
    let a = r;
    let q = 0int;
    let r = 79766443076872509863361int;
    lemma_power_times(b, n, e, a, q, r);
    let e = e + 1;
    let a = r;
    let q = 460451413872808512int;
    let r = 12263218018458923137787670849int;
    lemma_power_square(b, n, e, a, q, r);
    let e = 2 * e;
    let a = r;
    let q = 10883090895770686271959903237int;
    let r = 11169179969915584130165112604int;
    lemma_power_square(b, n, e, a, q, r);
    let e = 2 * e;
    let a = r;
    let q = 9027883277678869313288555658int;
    let r = 7068053648733080188212248518int;
    lemma_power_square(b, n, e, a, q, r);
    let e = 2 * e;
    let a = r;
    let q = 3615289104529287125483188966int;
    let r = 6173447486684711470330382078int;
    lemma_power_square(b, n, e, a, q, r);
    let e = 2 * e;
    let a = r;
    let q = 2758029291551773140568236108int;
    let r = 9299119071098281140979969336int;
    lemma_power_square(b, n, e, a, q, r);
    let e = 2 * e;
    let a = r;
    let q = 28968448int;
    let r = 12642248942376767338801478968int;
    lemma_power_times(b, n, e, a, q, r);
    let e = e + 1;
    let a = r;
    let q = 11566235576005714420320435367int;
    let r = 9012577947201939275914034297int;
    lemma_power_square(b, n, e, a, q, r);
    let e = 2 * e;
    let a = r;
    let q = 28075821int;
    let r = 2016661038451929058416750636int;
    lemma_power_times(b, n, e, a, q, r);
    let e = e + 1;
    let a = r;
    let q = 294312815628546340319073102int;
    let r = 10179672937893680043215007234int;
    lemma_power_square(b, n, e, a, q, r);
    let e = 2 * e;
    let a = r;
    let q = 7499132159666728249222130010int;
    let r = 7044271304425977353046419946int;
    lemma_power_square(b, n, e, a, q, r);
    let e = 2 * e;
    let a = r;
    let q = 21944187int;
    let r = 8311753318905924928848611919int;
    lemma_power_times(b, n, e, a, q, r);
    let e = e + 1;
    let a = r;
    let q = 4999523899034877478159052596int;
    let r = 5539211084420395750884154285int;
    lemma_power_square(b, n, e, a, q, r);
    let e = 2 * e;
    let a = r;
    let q = 17255651int;
    let r = 43828752458776494700603754int;
    lemma_power_times(b, n, e, a, q, r);
    let e = e + 1;
    let a = r;
    let q = 139014971796426980210898int;
    let r = 6113716394034473892276285778int;
    lemma_power_square(b, n, e, a, q, r);
    let e = 2 * e;
    let a = r;
    let q = 2704916947637063217587802645int;
    let r = 8699760780716809760714041039int;
    lemma_power_square(b, n, e, a, q, r);
    let e = 2 * e;
    let a = r;
    let q = 5477192181615387889664752747int;
    let r = 5669285658686881689759741014int;
    lemma_power_square(b, n, e, a, q, r);
    let e = 2 * e;
    let a = r;
    let q = 2325948199792102647485130221int;
    let r = 11444704990122992262394502295int;
    lemma_power_square(b, n, e, a, q, r);
    let e = 2 * e;
    let a = r;
    let q = 35652339int;
    let r = 9403581920276619035857303236int;
    lemma_power_times(b, n, e, a, q, r);
    let e = e + 1;
    let a = r;
    let q = 6399263339191929915312677562int;
    let r = 3085236605645449188535233174int;
    lemma_power_square(b, n, e, a, q, r);
    let e = 2 * e;
    let a = r;
    let q = 9611073int;
    let r = 10064531394799100666552951541int;
    lemma_power_times(b, n, e, a, q, r);
    let e = e + 1;
    let a = r;
    let q = 7330447295644787561514035684int;
    let r = 12927039320385318080200192277int;
    lemma_power_square(b, n, e, a, q, r);
    let e = 2 * e;
    let a = r;
    let q = 12093207295736924492723612225int;
    let r = 13646725551711702242700804504int;
    lemma_power_square(b, n, e, a, q, r);
    let e = 2 * e;
    let a = r;
    let q = 42512034int;
    let r = 8737112435157373925502264630int;
    lemma_power_times(b, n, e, a, q, r);
    let e = e + 1;
    let a = r;
    let q = 5524324826436322381858712941int;
    let r = 2093159936703758689690230679int;
    lemma_power_square(b, n, e, a, q, r);
    let e = 2 * e;
    let a = r;
    let q = 317064913252604273282441578int;
    let r = 261387058816189959019669223int;
    lemma_power_square(b, n, e, a, q, r);
    let e = 2 * e;
    let a = r;
    let q = 4944376365374569258205834int;
    let r = 6669957099903270096700859175int;
    lemma_power_square(b, n, e, a, q, r);
    let e = 2 * e;
    let a = r;
    let q = 20778130int;
    let r = 9760374364447328617705546645int;
    lemma_power_times(b, n, e, a, q, r);
    let e = e + 1;
    let a = r;
    let q = 6894079844818734120321412959int;
    let r = 4612170898990762360885164346int;
    lemma_power_square(b, n, e, a, q, r);
    let e = 2 * e;
    let a = r;
    let q = 1539409421628322196864023644int;
    let r = 3903698727778783548416020552int;
    lemma_power_square(b, n, e, a, q, r);
    let e = 2 * e;
    let a = r;
    let q = 12160732int;
    let r = 3440141556010858486011774700int;
    lemma_power_times(b, n, e, a, q, r);
    let e = e + 1;
    let a = r;
}

/// A power of a base, computed from the bits of the exponent.
proof fn lemma_power_13818364434197438864469338081_ta()
    ensures
        power_is(
            43046721int,
            13112258210nat,
            13818364434197438864469338081int,
            11685553033882782147454259209int,
        ),
{
    let n = 13818364434197438864469338081int;
    let b = 43046721int;
    lemma_power_13818364434197438864469338081_ta_part_1();
    let e = 6402469nat;
    let a = 3440141556010858486011774700int;
    let q = 856438110439815921409741913int;
    let r = 1417670072446745127407401047int;
    lemma_power_square(b, n, e, a, q, r);
    let e = 2 * e;
    let a = r;
    let q = 4416300int;
    let r = 5227918675600459908438196587int;
    lemma_power_times(b, n, e, a, q, r);
    let e = e + 1;
    let a = r;
    let q = 1977884850905615898606739357int;
    let r = 4557636261458536169376894652int;
    lemma_power_square(b, n, e, a, q, r);
    let e = 2 * e;
    let a = r;
    let q = 14197866int;
    let r = 9990587605010648104748300946int;
    lemma_power_times(b, n, e, a, q, r);
    let e = e + 1;
    let a = r;
    let q = 7223129855106430399353553437int;
    let r = 6457327771795331095131960519int;
    lemma_power_square(b, n, e, a, q, r);
    let e = 2 * e;
    let a = r;
    let q = 3017512105065637858075672544int;
    let r = 1352818970689953667989401297int;
    lemma_power_square(b, n, e, a, q, r);
    let e = 2 * e;
    let a = r;
    let q = 4214277int;
    let r = 5382141332983427139909014700int;
    lemma_power_times(b, n, e, a, q, r);
    let e = e + 1;
    let a = r;
    let q = 2096300576392421026012686784int;
    let r = 7924473201772575451959468496int;
    lemma_power_square(b, n, e, a, q, r);
    let e = 2 * e;
    let a = r;
    let q = 4544479618022095974185325281int;
    let r = 11682244962882476297071176255int;
    lemma_power_square(b, n, e, a, q, r);
    let e = 2 * e;
    let a = r;
    let q = 36392319int;
    let r = 13023289608810370124228210016int;
    lemma_power_times(b, n, e, a, q, r);
    let e = e + 1;
    let a = r;
    let q = 12273961440415489210588760000int;
    let r = 11252928895637430280833160256int;
    lemma_power_square(b, n, e, a, q, r);
    let e = 2 * e;
    let a = r;
    let q = 9163776895107364236161440796int;
    let r = 7612215116294522198788233060int;
    lemma_power_square(b, n, e, a, q, r);
    let e = 2 * e;
    let a = r;
    let q = 4193392007619914793097876015int;
    let r = 5224167013765726982820936385int;
    lemma_power_square(b, n, e, a, q, r);
    let e = 2 * e;
    let a = r;
    let q = 1975047127876896924849131013int;
    let r = 13381788768136635092057862172int;
    lemma_power_square(b, n, e, a, q, r);
    let e = 2 * e;
    let a = r;
    let q = 41686708int;
    let r = 4376937572395639237238610664int;
    lemma_power_times(b, n, e, a, q, r);
    let e = e + 1;
    let a = r;
    let q = 1386385675662004707516853527int;
    let r = 11685553033882782147454259209int;
    lemma_power_square(b, n, e, a, q, r);
    let e = 2 * e;
    let a = r;
}

/// A power of the base of the certificate, as the power of a power.
proof fn lemma_node_13818364434197438864469338081_ta()
    ensures
        power_is(
            3int,
            209796131360nat,
            13818364434197438864469338081int,
            11685553033882782147454259209int,
        ),
{
    lemma_power_13818364434197438864469338081_root();
    lemma_power_13818364434197438864469338081_ta();
    lemma_power_of_power(
        3int,
        16nat,
        13818364434197438864469338081int,
        43046721int,
        13112258210nat,
        11685553033882782147454259209int,
    );
    assert(16nat * 13112258210nat == 209796131360nat);
}

/// The power of a base with the leading bits of an exponent.
proof fn lemma_power_13818364434197438864469338081_tb_part_1()
    ensures
        power_is(
            43046721int,
            15335548nat,
            13818364434197438864469338081int,
            4363431823802234196582305810int,
        ),
{
    let n = 13818364434197438864469338081int;
    let b = 43046721int;
    lemma_power_one(b, n);
    let e = 1nat;
    let a = 43046721int;
    let q = 0int;
    let r = 1853020188851841int;
    lemma_power_square(b, n, e, a, q, r);
    let e = 2 * e;
    let a = r;
    let q = 0int;
    let r = 79766443076872509863361int;
    lemma_power_times(b, n, e, a, q, r);
    let e = e + 1;
    let a = r;
    let q = 460451413872808512int;
    let r = 12263218018458923137787670849int;
    lemma_power_square(b, n, e, a, q, r);
    let e = 2 * e;
    let a = r;
    let q = 38202156int;
    let r = 10822711819971869913689633493int;
    lemma_power_times(b, n, e, a, q, r);
    let e = e + 1;
    let a = r;
    let q = 8476480099792773938298283913int;
    let r = 1982404660363262763346790096int;
    lemma_power_square(b, n, e, a, q, r);
    let e = 2 * e;
    let a = r;
    let q = 284398942880987255450145651int;
    let r = 11035918476201845251672853485int;
    lemma_power_square(b, n, e, a, q, r);
    let e = 2 * e;
    let a = r;
    let q = 34378895int;
    let r = 3668797812243425502636472190int;
    lemma_power_times(b, n, e, a, q, r);
    let e = e + 1;
    let a = r;
    let q = 974071674778774013161517929int;
    let r = 8860121459837387384799441851int;
    lemma_power_square(b, n, e, a, q, r);
    let e = 2 * e;
    let a = r;
    let q = 5680972784940906396496918602int;
    let r = 11134932552365285814054423439int;
    lemma_power_square(b, n, e, a, q, r);
    let e = 2 * e;
    let a = r;
    let q = 34687342int;
    let r = 1925843291106919066065222817int;
    lemma_power_times(b, n, e, a, q, r);
    let e = e + 1;
    let a = r;
    let q = 268401691065758766051454715int;
    let r = 5360595616810750396660913574int;
    lemma_power_square(b, n, e, a, q, r);
    let e = 2 * e;
    let a = r;
    let q = 2079550405824826245854533092int;
    let r = 2404063044798669105747177024int;
    lemma_power_square(b, n, e, a, q, r);
    let e = 2 * e;
    let a = r;
    let q = 418249145974439500240932867int;
    let r = 2073315447973138987745888349int;
    lemma_power_square(b, n, e, a, q, r);
    let e = 2 * e;
    let a = r;
    let q = 311081457380431281726270354int;
    let r = 13391242921909858403940395127int;
    lemma_power_square(b, n, e, a, q, r);
    let e = 2 * e;
    let a = r;
    let q = 12977323607836659117207632634int;
    let r = 706144013859075201890810775int;
    lemma_power_square(b, n, e, a, q, r);
    let e = 2 * e;
    let a = r;
    let q = 36085266869571197812797072int;
    let r = 6315664833133189603841201793int;
    lemma_power_square(b, n, e, a, q, r);
    let e = 2 * e;
    let a = r;
    let q = 2886566096473914964263302455int;
    let r = 7452306793924603741594125994int;
    lemma_power_square(b, n, e, a, q, r);
    let e = 2 * e;
    let a = r;
    let q = 4019062951714686779773187284int;
    let r = 11801151514961450093620326032int;
    lemma_power_square(b, n, e, a, q, r);
    let e = 2 * e;
    let a = r;
    let q = 10078412517071921532868297724int;
    let r = 10463039616238915522458037380int;
    lemma_power_square(b, n, e, a, q, r);
    let e = 2 * e;
    let a = r;
    let q = 7922442524388613512299393602int;
    let r = 8692347990905207542850906638int;
    lemma_power_square(b, n, e, a, q, r);
    let e = 2 * e;
    let a = r;
    let q = 5467862275220279482273713186int;
    let r = 3922054600235290931130826978int;
    lemma_power_square(b, n, e, a, q, r);
    let e = 2 * e;
    let a = r;
    let q = 12217914int;
    let r = 1845412135999874895110656104int;
    lemma_power_times(b, n, e, a, q, r);
    let e = e + 1;
    let a = r;
    let q = 246450726344113280771564168int;
    let r = 2293135768071497655374977208int;
    lemma_power_square(b, n, e, a, q, r);
    let e = 2 * e;
    let a = r;
    let q = 7143535int;
    let r = 5644849866184383821245678633int;
    lemma_power_times(b, n, e, a, q, r);
    let e = e + 1;
    let a = r;
    let q = 2305940776384836631448875375int;
    let r = 1250010007021257958602093314int;
    lemma_power_square(b, n, e, a, q, r);
    let e = 2 * e;
    let a = r;
    let q = 3894008int;
    let r = 10365771831895219342661604746int;
    lemma_power_times(b, n, e, a, q, r);
    let e = e + 1;
    let a = r;
    let q = 7775828042644393380037039407int;
    let r = 13171305816357113671726966549int;
    lemma_power_square(b, n, e, a, q, r);
    let e = 2 * e;
    let a = r;
    let q = 41031015int;
    let r = 8307380281582491939369553614int;
    lemma_power_times(b, n, e, a, q, r);
    let e = e + 1;
    let a = r;
    let q = 4994264514549532913892700828int;
    let r = 1510064412878287127099829928int;
    lemma_power_square(b, n, e, a, q, r);
    let e = 2 * e;
    let a = r;
    let q = 4704125int;
    let r = 7879181405819836093057781963int;
    lemma_power_times(b, n, e, a, q, r);
    let e = e + 1;
    let a = r;
    let q = 4492680730881498102113309977int;
    let r = 5437078459797170796084799232int;
    lemma_power_square(b, n, e, a, q, r);
    let e = 2 * e;
    let a = r;
    let q = 2139314122070142477015512494int;
    let r = 4363431823802234196582305810int;
    lemma_power_square(b, n, e, a, q, r);
    let e = 2 * e;
    let a = r;
}

/// The power of a base with the leading bits of an exponent.
proof fn lemma_power_13818364434197438864469338081_tb_part_2()
    ensures
        power_is(
            43046721int,
            128643902347417nat,
            13818364434197438864469338081int,
            7823170662203304636171551917int,
        ),
{
    let n = 13818364434197438864469338081int;
    let b = 43046721int;
    lemma_power_13818364434197438864469338081_tb_part_1();
    let e = 15335548nat;
    let a = 4363431823802234196582305810int;
    let q = 1377843041528951762037401948int;
    let r = 2266259018901327623859774312int;
    lemma_power_square(b, n, e, a, q, r);
    let e = 2 * e;
    let a = r;
    let q = 371674228539037610582863113int;
    let r = 4326052777006042722633967191int;
    lemma_power_square(b, n, e, a, q, r);
    let e = 2 * e;
    let a = r;
    let q = 1354337752384559457271866489int;
    let r = 4293421478932374394028962872int;
    lemma_power_square(b, n, e, a, q, r);
    let e = 2 * e;
    let a = r;
    let q = 13374789int;
    let r = 7906514169254631836867302803int;
    lemma_power_times(b, n, e, a, q, r);
    let e = e + 1;
    let a = r;
    let q = 4523904880806175615339891548int;
    let r = 450530931570946434205217421int;
    lemma_power_square(b, n, e, a, q, r);
    let e = 2 * e;
    let a = r;
    let q = 1403485int;
    let r = 12105275030374477102109514256int;
    lemma_power_times(b, n, e, a, q, r);
    let e = e + 1;
    let a = r;
    let q = 10604560638041864305090387413int;
    let r = 1549625985684985804303259083int;
    lemma_power_square(b, n, e, a, q, r);
    let e = 2 * e;
    let a = r;
    let q = 173778937944882190440396560int;
    let r = 13397526572121801429072599529int;
    lemma_power_square(b, n, e, a, q, r);
    let e = 2 * e;
    let a = r;
    let q = 41735734int;
    let r = 6099488752205935135364907955int;
    lemma_power_times(b, n, e, a, q, r);
    let e = e + 1;
    let a = r;
    let q = 2692342007293968480883596355int;
    let r = 6092867062826022647987987270int;
    lemma_power_square(b, n, e, a, q, r);
    let e = 2 * e;
    let a = r;
    let q = 2686499492906613610896277470int;
    let r = 12631623640059392587868717830int;
    lemma_power_square(b, n, e, a, q, r);
    let e = 2 * e;
    let a = r;
    let q = 11546801833452608143283009916int;
    let r = 11758142805618926750280497704int;
    lemma_power_square(b, n, e, a, q, r);
    let e = 2 * e;
    let a = r;
    let q = 10005085833109149672238342564int;
    let r = 495602964927912992340891932int;
    lemma_power_square(b, n, e, a, q, r);
    let e = 2 * e;
    let a = r;
    let q = 17775063034050290649341214int;
    let r = 7414087236546373452009722290int;
    lemma_power_square(b, n, e, a, q, r);
    let e = 2 * e;
    let a = r;
    let q = 23096231int;
    let r = 7726864393928307879969238379int;
    lemma_power_times(b, n, e, a, q, r);
    let e = e + 1;
    let a = r;
    let q = 4320658472025938374114267541int;
    let r = 4510048901431035490913018820int;
    lemma_power_square(b, n, e, a, q, r);
    let e = 2 * e;
    let a = r;
    let q = 14049623int;
    let r = 5979175961907088461314695757int;
    lemma_power_times(b, n, e, a, q, r);
    let e = e + 1;
    let a = r;
    let q = 2587176315524922232101713981int;
    let r = 7393881251949340752820392588int;
    lemma_power_square(b, n, e, a, q, r);
    let e = 2 * e;
    let a = r;
    let q = 3956291660149945706316112811int;
    let r = 4488750311171055680351082053int;
    lemma_power_square(b, n, e, a, q, r);
    let e = 2 * e;
    let a = r;
    let q = 1458123314954276808460159108int;
    let r = 7486625369178411735235303061int;
    lemma_power_square(b, n, e, a, q, r);
    let e = 2 * e;
    let a = r;
    let q = 4056164511026742927494695776int;
    let r = 9262968148473288083329323865int;
    lemma_power_square(b, n, e, a, q, r);
    let e = 2 * e;
    let a = r;
    let q = 28855832int;
    let r = 2891239857372304166718758273int;
    lemma_power_times(b, n, e, a, q, r);
    let e = e + 1;
    let a = r;
    let q = 604939025357505871261618368int;
    let r = 9417472843342729125214470721int;
    lemma_power_square(b, n, e, a, q, r);
    let e = 2 * e;
    let a = r;
    let q = 6418183221135227754003033151int;
    let r = 7995547668689391828896536610int;
    lemma_power_square(b, n, e, a, q, r);
    let e = 2 * e;
    let a = r;
    let q = 4626363910628566987690053214int;
    let r = 4749078469223314958823649766int;
    lemma_power_square(b, n, e, a, q, r);
    let e = 2 * e;
    let a = r;
    let q = 14794244int;
    let r = 751324270991565821589911522int;
    lemma_power_times(b, n, e, a, q, r);
    let e = e + 1;
    let a = r;
    let q = 40850576988983061262311018int;
    let r = 2487595153083612684975080026int;
    lemma_power_square(b, n, e, a, q, r);
    let e = 2 * e;
    let a = r;
    let q = 7749311int;
    let r = 11003807575757923411078082555int;
    lemma_power_times(b, n, e, a, q, r);
    let e = e + 1;
    let a = r;
    let q = 8762526255614702956094058934int;
    let r = 4272417973980263243810862371int;
    lemma_power_square(b, n, e, a, q, r);
    let e = 2 * e;
    let a = r;
    let q = 1320963521501578585051221634int;
    let r = 10337423301695936666296497287int;
    lemma_power_square(b, n, e, a, q, r);
    let e = 2 * e;
    let a = r;
    let q = 7733355204758182422076520816int;
    let r = 8242868654864841586260366273int;
    lemma_power_square(b, n, e, a, q, r);
    let e = 2 * e;
    let a = r;
    let q = 25678036int;
    let r = 7823170662203304636171551917int;
    lemma_power_times(b, n, e, a, q, r);
    let e = e + 1;
    let a = r;
}

/// A power of a base, computed from the bits of the exponent.
proof fn lemma_power_13818364434197438864469338081_tb()
    ensures
        power_is(
            43046721int,
            65865678001877903nat,
            13818364434197438864469338081int,
            6918249230752021258106723580int,
        ),
{
    let n = 13818364434197438864469338081int;
    let b = 43046721int;
    lemma_power_13818364434197438864469338081_tb_part_2();
    let e = 128643902347417nat;
    let a = 7823170662203304636171551917int;
    let q = 4429033515608901520617878416int;
    let r = 3647476781361068070169615193int;
    lemma_power_square(b, n, e, a, q, r);
    let e = 2 * e;
    let a = r;
    let q = 11362554int;
    let r = 3285980051719368312600813279int;
    lemma_power_times(b, n, e, a, q, r);
    let e = e + 1;
    let a = r;
    let q = 781399633199407902828035307int;
    let r = 1021960959228290880235105974int;
    lemma_power_square(b, n, e, a, q, r);
    let e = 2 * e;
    let a = r;
    let q = 3183594int;
    let r = 6182268251644033623369568140int;
    lemma_power_times(b, n, e, a, q, r);
    let e = e + 1;
    let a = r;
    let q = 2765916394613136663053040847int;
    let r = 218633972030387449757464993int;
    lemma_power_square(b, n, e, a, q, r);
    let e = 2 * e;
    let a = r;
    let q = 3459223698536105382382406int;
    let r = 11463996121198291015980287163int;
    lemma_power_square(b, n, e, a, q, r);
    let e = 2 * e;
    let a = r;
    let q = 9510764294333248369630092748int;
    let r = 1854855736368119129744251981int;
    lemma_power_square(b, n, e, a, q, r);
    let e = 2 * e;
    let a = r;
    let q = 248979524249863854782338746int;
    let r = 10828921696170170025482837935int;
    lemma_power_square(b, n, e, a, q, r);
    let e = 2 * e;
    let a = r;
    let q = 33734062int;
    let r = 8424072754714304366952746113int;
    lemma_power_times(b, n, e, a, q, r);
    let e = e + 1;
    let a = r;
    let q = 5135557258939917884228784118int;
    let r = 5326018758877904216931211211int;
    lemma_power_square(b, n, e, a, q, r);
    let e = 2 * e;
    let a = r;
    let q = 16591518int;
    let r = 1313636793417218741972992173int;
    lemma_power_times(b, n, e, a, q, r);
    let e = e + 1;
    let a = r;
    let q = 124880309333055791013201839int;
    let r = 5896843697875598061937330970int;
    lemma_power_square(b, n, e, a, q, r);
    let e = 2 * e;
    let a = r;
    let q = 18369741int;
    let r = 9743240667676721162760842349int;
    lemma_power_times(b, n, e, a, q, r);
    let e = e + 1;
    let a = r;
    let q = 6869896879643486652378560572int;
    let r = 11989555912739722243627095469int;
    lemma_power_square(b, n, e, a, q, r);
    let e = 2 * e;
    let a = r;
    let q = 37349649int;
    let r = 6918249230752021258106723580int;
    lemma_power_times(b, n, e, a, q, r);
    let e = e + 1;
    let a = r;
}

/// A power of the base of the certificate, as the power of a power.
proof fn lemma_node_13818364434197438864469338081_tb()
    ensures
        power_is(
            3int,
            1053850848030046448nat,
            13818364434197438864469338081int,
            6918249230752021258106723580int,
        ),
{
    lemma_power_13818364434197438864469338081_root();
    lemma_power_13818364434197438864469338081_tb();
    lemma_power_of_power(
        3int,
        16nat,
        13818364434197438864469338081int,
        43046721int,
        65865678001877903nat,
        6918249230752021258106723580int,
    );
    assert(16nat * 65865678001877903nat == 1053850848030046448nat);
}

/// A power of a base, computed from the bits of the exponent.
proof fn lemma_power_13818364434197438864469338081_tba()
    ensures
        power_is(
            6918249230752021258106723580int,
            8230nat,
            13818364434197438864469338081int,
            9233249052774251384923794665int,
        ),
{
    let n = 13818364434197438864469338081int;
    let b = 6918249230752021258106723580int;
    lemma_power_one(b, n);
    let e = 1nat;
    let a = 6918249230752021258106723580int;
    let q = 3463664071585237218462076489int;
    let r = 5404779866679079955905538791int;
    lemma_power_square(b, n, e, a, q, r);
    let e = 2 * e;
    let a = r;
    let q = 2113972716985744025707548551int;
    let r = 12096666999188987743865071050int;
    lemma_power_square(b, n, e, a, q, r);
    let e = 2 * e;
    let a = r;
    let q = 10589484246567898403491588341int;
    let r = 1821602497796237825941188879int;
    lemma_power_square(b, n, e, a, q, r);
    let e = 2 * e;
    let a = r;
    let q = 240132301892804543506694515int;
    let r = 10150251320149988881629950926int;
    lemma_power_square(b, n, e, a, q, r);
    let e = 2 * e;
    let a = r;
    let q = 7455846337880316918330958558int;
    let r = 9184051114504261856666010278int;
    lemma_power_square(b, n, e, a, q, r);
    let e = 2 * e;
    let a = r;
    let q = 6103963698126751450522384790int;
    let r = 13318427738181660541519449294int;
    lemma_power_square(b, n, e, a, q, r);
    let e = 2 * e;
    let a = r;
    let q = 12836578327474745104521111527int;
    let r = 11939746819581775440967938749int;
    lemma_power_square(b, n, e, a, q, r);
    let e = 2 * e;
    let a = r;
    let q = 10316528761024297499638161301int;
    let r = 5531999450950479658435881620int;
    lemma_power_square(b, n, e, a, q, r);
    let e = 2 * e;
    let a = r;
    let q = 2769629584478501772584967037int;
    let r = 12535692499114079640348763603int;
    lemma_power_times(b, n, e, a, q, r);
    let e = e + 1;
    let a = r;
    let q = 11372082939385278369365292978int;
    let r = 3944404878540109104480246391int;
    lemma_power_square(b, n, e, a, q, r);
    let e = 2 * e;
    let a = r;
    let q = 1125916885456251175439839529int;
    let r = 4983092369032140252579721032int;
    lemma_power_square(b, n, e, a, q, r);
    let e = 2 * e;
    let a = r;
    let q = 1796971680443925669855155517int;
    let r = 5532677250636165676637802147int;
    lemma_power_square(b, n, e, a, q, r);
    let e = 2 * e;
    let a = r;
    let q = 2769968929064210956914756322int;
    let r = 2301450792075905913709428178int;
    lemma_power_times(b, n, e, a, q, r);
    let e = e + 1;
    let a = r;
    let q = 383306995091162683732697874int;
    let r = 12812145930681631894604459890int;
    lemma_power_square(b, n, e, a, q, r);
    let e = 2 * e;
    let a = r;
    let q = 6414479741890585872170842138int;
    let r = 13500646572062286678224349022int;
    lemma_power_times(b, n, e, a, q, r);
    let e = e + 1;
    let a = r;
    let q = 13190233817590232130266267899int;
    let r = 9233249052774251384923794665int;
    lemma_power_square(b, n, e, a, q, r);
    let e = 2 * e;
    let a = r;
}

/// A power of the base of the certificate, as the power of a power.
proof fn lemma_node_13818364434197438864469338081_tba()
    ensures
        power_is(
            3int,
            8673192479287282267040nat,
            13818364434197438864469338081int,
            9233249052774251384923794665int,
        ),
{
    lemma_node_13818364434197438864469338081_tb();
    lemma_power_13818364434197438864469338081_tba();
    lemma_power_of_power(
        3int,
        1053850848030046448nat,
        13818364434197438864469338081int,
        6918249230752021258106723580int,
        8230nat,
        9233249052774251384923794665int,
    );
    assert(1053850848030046448nat * 8230nat == 8673192479287282267040nat);
}

/// A power of a base, computed from the bits of the exponent.
proof fn lemma_power_13818364434197438864469338081_tbb()
    ensures
        power_is(
            6918249230752021258106723580int,
            1593227nat,
            13818364434197438864469338081int,
            9319693132052372829525211327int,
        ),
{
    let n = 13818364434197438864469338081int;
    let b = 6918249230752021258106723580int;
    lemma_power_one(b, n);
    let e = 1nat;
    let a = 6918249230752021258106723580int;
    let q = 3463664071585237218462076489int;
    let r = 5404779866679079955905538791int;
    lemma_power_square(b, n, e, a, q, r);
    let e = 2 * e;
    let a = r;
    let q = 2705936316348732645066059471int;
    let r = 6877327357448060905253376629int;
    lemma_power_times(b, n, e, a, q, r);
    let e = e + 1;
    let a = r;
    let q = 3422809682486894297724841344int;
    let r = 10048906421571765287700982777int;
    lemma_power_square(b, n, e, a, q, r);
    let e = 2 * e;
    let a = r;
    let q = 7307704233042334028620966263int;
    let r = 4706986788535292237408470426int;
    lemma_power_square(b, n, e, a, q, r);
    let e = 2 * e;
    let a = r;
    let q = 1603353619232620363583306045int;
    let r = 12861828462395769990120621831int;
    lemma_power_square(b, n, e, a, q, r);
    let e = 2 * e;
    let a = r;
    let q = 11971505903166014036486172457int;
    let r = 8625597313790199994110357544int;
    lemma_power_square(b, n, e, a, q, r);
    let e = 2 * e;
    let a = r;
    let q = 5384206602305164115188858621int;
    let r = 4532792833425839857757265635int;
    lemma_power_square(b, n, e, a, q, r);
    let e = 2 * e;
    let a = r;
    let q = 2269370639509255358899285342int;
    let r = 9880589997378326646892464598int;
    lemma_power_times(b, n, e, a, q, r);
    let e = e + 1;
    let a = r;
    let q = 7064950353653246629922689968int;
    let r = 5812299465052900834744230196int;
    lemma_power_square(b, n, e, a, q, r);
    let e = 2 * e;
    let a = r;
    let q = 2444777399838226262419496653int;
    let r = 10075373095598754344533255523int;
    lemma_power_square(b, n, e, a, q, r);
    let e = 2 * e;
    let a = r;
    let q = 7346248790797001412536616625int;
    let r = 6374180529643106287799806904int;
    lemma_power_square(b, n, e, a, q, r);
    let e = 2 * e;
    let a = r;
    let q = 3191272726658198241026170924int;
    let r = 1136494482592482079855439476int;
    lemma_power_times(b, n, e, a, q, r);
    let e = e + 1;
    let a = r;
    let q = 93471243656497900192964319int;
    let r = 10808231374537088885918222737int;
    lemma_power_square(b, n, e, a, q, r);
    let e = 2 * e;
    let a = r;
    let q = 5411207581675269476200833565int;
    let r = 10323185260441702907732549695int;
    lemma_power_times(b, n, e, a, q, r);
    let e = e + 1;
    let a = r;
    let q = 7712067113939178347719875948int;
    let r = 13380515663313915410652217237int;
    lemma_power_square(b, n, e, a, q, r);
    let e = 2 * e;
    let a = r;
    let q = 6699037547866152651708515152int;
    let r = 5313913644356395703671245148int;
    lemma_power_times(b, n, e, a, q, r);
    let e = e + 1;
    let a = r;
    let q = 2043489180947853306376947517int;
    let r = 5269874522835605838447047027int;
    lemma_power_square(b, n, e, a, q, r);
    let e = 2 * e;
    let a = r;
    let q = 2638395125369595056923419078int;
    let r = 13013472678657899799122487342int;
    lemma_power_times(b, n, e, a, q, r);
    let e = e + 1;
    let a = r;
    let q = 12255464238522333710736374133int;
    let r = 3207414534641567820469966191int;
    lemma_power_square(b, n, e, a, q, r);
    let e = 2 * e;
    let a = r;
    let q = 1605811834146755225784538358int;
    let r = 13088456686572258087967872782int;
    lemma_power_times(b, n, e, a, q, r);
    let e = e + 1;
    let a = r;
    let q = 12397103814423134853881408145int;
    let r = 12981086148116091009784349779int;
    lemma_power_square(b, n, e, a, q, r);
    let e = 2 * e;
    let a = r;
    let q = 12194539982444623994144658943int;
    let r = 1919641690569508381110240458int;
    lemma_power_square(b, n, e, a, q, r);
    let e = 2 * e;
    let a = r;
    let q = 266675860064374097813658647int;
    let r = 2081442610043284101608013357int;
    lemma_power_square(b, n, e, a, q, r);
    let e = 2 * e;
    let a = r;
    let q = 313525045567769602932390908int;
    let r = 12528813421907285522787841901int;
    lemma_power_square(b, n, e, a, q, r);
    let e = 2 * e;
    let a = r;
    let q = 6272627576953888924008922597int;
    let r = 12327645548072109159595209223int;
    lemma_power_times(b, n, e, a, q, r);
    let e = e + 1;
    let a = r;
    let q = 10997744739081232310152659658int;
    let r = 167834125337026320212427431int;
    lemma_power_square(b, n, e, a, q, r);
    let e = 2 * e;
    let a = r;
    let q = 2038467993935250080932423int;
    let r = 3669063143149965863339759498int;
    lemma_power_square(b, n, e, a, q, r);
    let e = 2 * e;
    let a = r;
    let q = 1836939052270124939808171497int;
    let r = 4834974803752151247444685583int;
    lemma_power_times(b, n, e, a, q, r);
    let e = e + 1;
    let a = r;
    let q = 1691732872167216982459541503int;
    let r = 11309322906779144808570174146int;
    lemma_power_square(b, n, e, a, q, r);
    let e = 2 * e;
    let a = r;
    let q = 5662082142407702295218772313int;
    let r = 9319693132052372829525211327int;
    lemma_power_times(b, n, e, a, q, r);
    let e = e + 1;
    let a = r;
}

/// A power of the base of the certificate, as the power of a power.
proof fn lemma_node_13818364434197438864469338081_tbb()
    ensures
        power_is(
            3int,
            1679023625054366812207696nat,
            13818364434197438864469338081int,
            9319693132052372829525211327int,
        ),
{
    lemma_node_13818364434197438864469338081_tb();
    lemma_power_13818364434197438864469338081_tbb();
    lemma_power_of_power(
        3int,
        1053850848030046448nat,
        13818364434197438864469338081int,
        6918249230752021258106723580int,
        1593227nat,
        9319693132052372829525211327int,
    );
    assert(1053850848030046448nat * 1593227nat == 1679023625054366812207696nat);
}

/// A power of a base, computed from the bits of the exponent.
proof fn lemma_power_13818364434197438864469338081_tbba()
    ensures
        power_is(
            9319693132052372829525211327int,
            10nat,
            13818364434197438864469338081int,
            570363171180057177517864248int,
        ),
{
    let n = 13818364434197438864469338081int;
    let b = 9319693132052372829525211327int;
    lemma_power_one(b, n);
    let e = 1nat;
    let a = 9319693132052372829525211327int;
    let q = 6285597726795569440513730381int;
    let r = 12377478477971630048839162068int;
    lemma_power_square(b, n, e, a, q, r);
    let e = 2 * e;
    let a = r;
    let q = 11086838402778654547921497679int;
    let r = 5362371795321636589062222625int;
    lemma_power_square(b, n, e, a, q, r);
    let e = 2 * e;
    let a = r;
    let q = 3616611779950711720454136046int;
    let r = 1589060238166335351103105649int;
    lemma_power_times(b, n, e, a, q, r);
    let e = e + 1;
    let a = r;
    let q = 182735985329215065613459913int;
    let r = 570363171180057177517864248int;
    lemma_power_square(b, n, e, a, q, r);
    let e = 2 * e;
    let a = r;
}

/// A power of the base of the certificate, as the power of a power.
proof fn lemma_node_13818364434197438864469338081_tbba()
    ensures
        power_is(
            3int,
            16790236250543668122076960nat,
            13818364434197438864469338081int,
            570363171180057177517864248int,
        ),
{
    lemma_node_13818364434197438864469338081_tbb();
    lemma_power_13818364434197438864469338081_tbba();
    lemma_power_of_power(
        3int,
        1679023625054366812207696nat,
        13818364434197438864469338081int,
        9319693132052372829525211327int,
        10nat,
        570363171180057177517864248int,
    );
    assert(1679023625054366812207696nat * 10nat == 16790236250543668122076960nat);
}

/// A power of a base, computed from the bits of the exponent.
proof fn lemma_power_13818364434197438864469338081_tbbb()
    ensures
        power_is(
            9319693132052372829525211327int,
            823nat,
            13818364434197438864469338081int,
            8150149932824841619338510424int,
        ),
{
    let n = 13818364434197438864469338081int;
    let b = 9319693132052372829525211327int;
    lemma_power_one(b, n);
    let e = 1nat;
    let a = 9319693132052372829525211327int;
    let q = 6285597726795569440513730381int;
    let r = 12377478477971630048839162068int;
    lemma_power_square(b, n, e, a, q, r);
    let e = 2 * e;
    let a = r;
    let q = 8347898314058175740790192248int;
    let r = 2440170969464592966004948148int;
    lemma_power_times(b, n, e, a, q, r);
    let e = e + 1;
    let a = r;
    let q = 430907318197647532510657774int;
    let r = 5970848203096812452471738210int;
    lemma_power_square(b, n, e, a, q, r);
    let e = 2 * e;
    let a = r;
    let q = 2579974528403369715578265324int;
    let r = 8700885868942747990299000856int;
    lemma_power_square(b, n, e, a, q, r);
    let e = 2 * e;
    let a = r;
    let q = 5478608938479955306479050485int;
    let r = 1961335690028266930556713451int;
    lemma_power_square(b, n, e, a, q, r);
    let e = 2 * e;
    let a = r;
    let q = 1322808270620579808587621035int;
    let r = 4942188764396365582436325642int;
    lemma_power_times(b, n, e, a, q, r);
    let e = e + 1;
    let a = r;
    let q = 1767591953392006147168350002int;
    let r = 7740450319254612651991686002int;
    lemma_power_square(b, n, e, a, q, r);
    let e = 2 * e;
    let a = r;
    let q = 5220489155780437475630564094int;
    let r = 2823364469676499823252281040int;
    lemma_power_times(b, n, e, a, q, r);
    let e = e + 1;
    let a = r;
    let q = 576869061935015884487871137int;
    let r = 13469070547878434087928613503int;
    lemma_power_square(b, n, e, a, q, r);
    let e = 2 * e;
    let a = r;
    let q = 13128605942303964825571044865int;
    let r = 10685391131866029273849926944int;
    lemma_power_square(b, n, e, a, q, r);
    let e = 2 * e;
    let a = r;
    let q = 7206682586724596462416304471int;
    let r = 10839357781637953197580434537int;
    lemma_power_times(b, n, e, a, q, r);
    let e = e + 1;
    let a = r;
    let q = 8502574792975423936588798625int;
    let r = 4946604304188819396989465744int;
    lemma_power_square(b, n, e, a, q, r);
    let e = 2 * e;
    let a = r;
    let q = 3336200487420908832095477685int;
    let r = 4544856972072654338971059803int;
    lemma_power_times(b, n, e, a, q, r);
    let e = e + 1;
    let a = r;
    let q = 1494802441704244015116741831int;
    let r = 9520843447129161383068432498int;
    lemma_power_square(b, n, e, a, q, r);
    let e = 2 * e;
    let a = r;
    let q = 6421262060940060837284121462int;
    let r = 8150149932824841619338510424int;
    lemma_power_times(b, n, e, a, q, r);
    let e = e + 1;
    let a = r;
}

/// A power of the base of the certificate, as the power of a power.
proof fn lemma_node_13818364434197438864469338081_tbbb()
    ensures
        power_is(
            3int,
            1381836443419743886446933808nat,
            13818364434197438864469338081int,
            8150149932824841619338510424int,
        ),
{
    lemma_node_13818364434197438864469338081_tbb();
    lemma_power_13818364434197438864469338081_tbbb();
    lemma_power_of_power(
        3int,
        1679023625054366812207696nat,
        13818364434197438864469338081int,
        9319693132052372829525211327int,
        823nat,
        8150149932824841619338510424int,
    );
    assert(1679023625054366812207696nat * 823nat == 1381836443419743886446933808nat);
}

/// A power of a base, computed from the bits of the exponent.
proof fn lemma_power_13818364434197438864469338081_tbbba()
    ensures
        power_is(
            8150149932824841619338510424int,
            2nat,
            13818364434197438864469338081int,
            1236319344469036993987267104int,
        ),
{
    let n = 13818364434197438864469338081int;
    let b = 8150149932824841619338510424int;
    lemma_power_one(b, n);
    let e = 1nat;
    let a = 8150149932824841619338510424int;
    let q = 4807004782934912193701959712int;
    let r = 1236319344469036993987267104int;
    lemma_power_square(b, n, e, a, q, r);
    let e = 2 * e;
    let a = r;
}

/// A power of the base of the certificate, as the power of a power.
proof fn lemma_node_13818364434197438864469338081_tbbba()
    ensures
        power_is(
            3int,
            2763672886839487772893867616nat,
            13818364434197438864469338081int,
            1236319344469036993987267104int,
        ),
{
    lemma_node_13818364434197438864469338081_tbbb();
    lemma_power_13818364434197438864469338081_tbbba();
    lemma_power_of_power(
        3int,
        1381836443419743886446933808nat,
        13818364434197438864469338081int,
        8150149932824841619338510424int,
        2nat,
        1236319344469036993987267104int,
    );
    assert(1381836443419743886446933808nat * 2nat == 2763672886839487772893867616nat);
}

/// A power of a base, computed from the bits of the exponent.
proof fn lemma_power_13818364434197438864469338081_tbbbb()
    ensures
        power_is(
            8150149932824841619338510424int,
            5nat,
            13818364434197438864469338081int,
            13818364434197438864469338080int,
        ),
{
    let n = 13818364434197438864469338081int;
    let b = 8150149932824841619338510424int;
    lemma_power_one(b, n);
    let e = 1nat;
    let a = 8150149932824841619338510424int;
    let q = 4807004782934912193701959712int;
    let r = 1236319344469036993987267104int;
    lemma_power_square(b, n, e, a, q, r);
    let e = 2 * e;
    let a = r;
    let q = 110612621977582308940926989int;
    let r = 10403291389757668567262178707int;
    lemma_power_square(b, n, e, a, q, r);
    let e = 2 * e;
    let a = r;
    let q = 6135920428582557278097831848int;
    let r = 13818364434197438864469338080int;
    lemma_power_times(b, n, e, a, q, r);
    let e = e + 1;
    let a = r;
}

/// A power of the base of the certificate, as the power of a power.
proof fn lemma_node_13818364434197438864469338081_tbbbb()
    ensures
        power_is(
            3int,
            6909182217098719432234669040nat,
            13818364434197438864469338081int,
            13818364434197438864469338080int,
        ),
{
    lemma_node_13818364434197438864469338081_tbbb();
    lemma_power_13818364434197438864469338081_tbbbb();
    lemma_power_of_power(
        3int,
        1381836443419743886446933808nat,
        13818364434197438864469338081int,
        8150149932824841619338510424int,
        5nat,
        13818364434197438864469338080int,
    );
    assert(1381836443419743886446933808nat * 5nat == 6909182217098719432234669040nat);
}

/// A power of a base, computed from the bits of the exponent.
proof fn lemma_power_13818364434197438864469338081_full()
    ensures
        power_is(13818364434197438864469338080int, 2nat, 13818364434197438864469338081int, 1int),
{
    let n = 13818364434197438864469338081int;
    let b = 13818364434197438864469338080int;
    lemma_power_one(b, n);
    let e = 1nat;
    let a = 13818364434197438864469338080int;
    let q = 13818364434197438864469338079int;
    let r = 1int;
    lemma_power_square(b, n, e, a, q, r);
    let e = 2 * e;
    let a = r;
}

/// The certificate of 13818364434197438864469338081: base 3, and the prime factors of the
/// number before it.
pub proof fn lemma_certificate_13818364434197438864469338081() -> (factors: Seq<int>)
    ensures
        lucas_certificate(13818364434197438864469338081int, 3, factors),
{
    let n = 13818364434197438864469338081int;
    lemma_prime_2();
    lemma_node_13818364434197438864469338081_tbbbb();
    lemma_power_is(3int, 6909182217098719432234669040nat, n, 13818364434197438864469338080int);
    lemma_prime_5();
    lemma_node_13818364434197438864469338081_tbbba();
    lemma_power_is(3int, 2763672886839487772893867616nat, n, 1236319344469036993987267104int);
    lemma_prime_823();
    lemma_node_13818364434197438864469338081_tbba();
    lemma_power_is(3int, 16790236250543668122076960nat, n, 570363171180057177517864248int);
    lemma_prime_1593227();
    lemma_node_13818364434197438864469338081_tba();
    lemma_power_is(3int, 8673192479287282267040nat, n, 9233249052774251384923794665int);
    lemma_prime_65865678001877903();
    lemma_node_13818364434197438864469338081_ta();
    lemma_power_is(3int, 209796131360nat, n, 11685553033882782147454259209int);
    lemma_power_13818364434197438864469338081_full();
    lemma_power_of_power(
        3int,
        6909182217098719432234669040nat,
        n,
        13818364434197438864469338080int,
        2nat,
        1,
    );
    assert(6909182217098719432234669040nat * 2nat == 13818364434197438864469338080nat);
    lemma_power_is(3int, 13818364434197438864469338080nat, n, 1);
    lemma_certified_empty(n, 3);
    let s = Seq::<int>::empty();
    lemma_certified_push(n, 3, s, 2int, 6909182217098719432234669040nat);
    let s = s.push(2int);
    assert(product(s) == 2int);
    lemma_certified_push(n, 3, s, 2int, 6909182217098719432234669040nat);
    let s = s.push(2int);
    assert(product(s) == 4int);
    lemma_certified_push(n, 3, s, 2int, 6909182217098719432234669040nat);
    let s = s.push(2int);
    assert(product(s) == 8int);
    lemma_certified_push(n, 3, s, 2int, 6909182217098719432234669040nat);
    let s = s.push(2int);
    assert(product(s) == 16int);
    lemma_certified_push(n, 3, s, 2int, 6909182217098719432234669040nat);
    let s = s.push(2int);
    assert(product(s) == 32int);
    lemma_certified_push(n, 3, s, 5int, 2763672886839487772893867616nat);
    let s = s.push(5int);
    assert(product(s) == 160int);
    lemma_certified_push(n, 3, s, 823int, 16790236250543668122076960nat);
    let s = s.push(823int);
    assert(product(s) == 131680int);
    lemma_certified_push(n, 3, s, 1593227int, 8673192479287282267040nat);
    let s = s.push(1593227int);
    assert(product(s) == 209796131360int);
    lemma_certified_push(n, 3, s, 65865678001877903int, 209796131360nat);
    let s = s.push(65865678001877903int);
    assert(product(s) == 13818364434197438864469338080int);
    lemma_certificate(n, 3, s);
    s
}

/// 13818364434197438864469338081 is prime.
pub proof fn lemma_prime_13818364434197438864469338081()
    ensures
        is_prime(13818364434197438864469338081int),
{
    let factors = lemma_certificate_13818364434197438864469338081();
    lemma_lucas(13818364434197438864469338081int, 3, factors);
}

/// A power of a base, computed from the bits of the exponent.
proof fn lemma_power_field_order_root()
    ensures
        power_is(
            5int,
            402653184nat,
            21888242871839275222246405745257275088548364400416034343698204186575808495617int,
            19887383362718182203517009867385956224532393031860387934578001712995117994586int,
        ),
{
    let n = 21888242871839275222246405745257275088548364400416034343698204186575808495617int;
    let b = 5int;
    lemma_power_one(b, n);
    let e = 1nat;
    let a = 5int;
    let q = 0int;
    let r = 25int;
    lemma_power_square(b, n, e, a, q, r);
    let e = 2 * e;
    let a = r;
    let q = 0int;
    let r = 125int;
    lemma_power_times(b, n, e, a, q, r);
    let e = e + 1;
    let a = r;
    let q = 0int;
    let r = 15625int;
    lemma_power_square(b, n, e, a, q, r);
    let e = 2 * e;
    let a = r;
    let q = 0int;
    let r = 244140625int;
    lemma_power_square(b, n, e, a, q, r);
    let e = 2 * e;
    let a = r;
    let q = 0int;
    let r = 59604644775390625int;
    lemma_power_square(b, n, e, a, q, r);
    let e = 2 * e;
    let a = r;
    let q = 0int;
    let r = 3552713678800500929355621337890625int;
    lemma_power_square(b, n, e, a, q, r);
    let e = 2 * e;
    let a = r;
    let q = 0int;
    let r = 12621774483536188886587657044524579674771302961744368076324462890625int;
    lemma_power_square(b, n, e, a, q, r);
    let e = 2 * e;
    let a = r;
    let q = 7278299681067931764931840576092163324555364564866917922343int;
    let r = 18108980273418431682570803980608836966774416040013255140820193918992651019994int;
    lemma_power_square(b, n, e, a, q, r);
    let e = 2 * e;
    let a = r;
    let q = 14982251817251578776857470313004279494689307123325557869647850322990992128273int;
    let r = 16532651553596172394408512251305313330354474087653817964818164477963365480595int;
    lemma_power_square(b, n, e, a, q, r);
    let e = 2 * e;
    let a = r;
    let q = 12487460459618796989424308769594713308215844583877041713042568948598165823282int;
    let r = 15733408684685898022648781739831327459083918461637758632860774630522627999031int;
    lemma_power_square(b, n, e, a, q, r);
    let e = 2 * e;
    let a = r;
    let q = 11309274585847501204234477120649321044896302704303338141878117882441475147894int;
    let r = 11461461826938675424376077008895886629135685014085379667667444192010211158363int;
    lemma_power_square(b, n, e, a, q, r);
    let e = 2 * e;
    let a = r;
    let q = 6001628727328435037260037673510001297023204694821312254539910594020200994374int;
    let r = 21246289284896851672250190725385104008782856464180844184315402904653844181011int;
    lemma_power_square(b, n, e, a, q, r);
    let e = 2 * e;
    let a = r;
    let q = 20623163358548346527645223267715695667810044113004958119064778273934685216455int;
    let r = 18390272234235692929633111222962055523868642464746535712060226496541769204386int;
    lemma_power_square(b, n, e, a, q, r);
    let e = 2 * e;
    let a = r;
    let q = 15451313969310001817442267173866399941813346915980091580862790718370163096036int;
    let r = 21557502220496917640487710312853231932593592196978837659177548569619185562784int;
    lemma_power_square(b, n, e, a, q, r);
    let e = 2 * e;
    let a = r;
    let q = 21231759200946699201770391851102162868232399876170535449259656752729441114626int;
    let r = 16731020843570475577549643681837271843768342486944444341594602078154090236414int;
    lemma_power_square(b, n, e, a, q, r);
    let e = 2 * e;
    let a = r;
    let q = 12788923263828320200275924781282116907428957724636740098139840995918567600427int;
    let r = 10292704463214638840518629066079196560114098935862637759734903080733974750937int;
    lemma_power_square(b, n, e, a, q, r);
    let e = 2 * e;
    let a = r;
    let q = 4840030594844016290125960924830752423637099837340086990750424675670633999563int;
    let r = 20366215432681099302937901495710227389484810499542036836795632342048316962598int;
    lemma_power_square(b, n, e, a, q, r);
    let e = 2 * e;
    let a = r;
    let q = 18950024151277313883829598749277689699380096998031887212708179937488388057819int;
    let r = 17498877646672147812644927278331150293064973676489639564715158593629726830281int;
    lemma_power_square(b, n, e, a, q, r);
    let e = 2 * e;
    let a = r;
    let q = 13989735068554234883910925106321619443401039903912307676135685925238781111015int;
    let r = 608823507558736968573950694067405970108808878764258227228398211452360617706int;
    lemma_power_square(b, n, e, a, q, r);
    let e = 2 * e;
    let a = r;
    let q = 16934482385199167741828188986573268975587911334722607364764683993373069109int;
    let r = 10835313185533884980323532093524515689631932923360366388435139188258416107183int;
    lemma_power_square(b, n, e, a, q, r);
    let e = 2 * e;
    let a = r;
    let q = 5363793362310173138620891922534085664852700313005264616359057295696655382013int;
    let r = 12291548404077860305166698109640876253961323100163948438936889346223773058468int;
    lemma_power_square(b, n, e, a, q, r);
    let e = 2 * e;
    let a = r;
    let q = 6902434473813635910855305515300954341597671750326888526210721430172783177333int;
    let r = 10777800216295833277907162987744450384637549720646605671749035896082882257563int;
    lemma_power_square(b, n, e, a, q, r);
    let e = 2 * e;
    let a = r;
    let q = 5307003316005578975268130435940195420935396537963289100720513292370744865397int;
    let r = 18141956831226427351717601952859724791122603514631459884036195306765741234020int;
    lemma_power_square(b, n, e, a, q, r);
    let e = 2 * e;
    let a = r;
    let q = 15036867033741310824833416361993731423600359510688709514238077573137270234255int;
    let r = 4654117904643527094486007913503801018307930548997681509343201668107674600065int;
    lemma_power_square(b, n, e, a, q, r);
    let e = 2 * e;
    let a = r;
    let q = 989609517637049633817314385703069521191046605099794618145055157778443658125int;
    let r = 11196646282644480209740544509036076275110112717403833837755506512607189066100int;
    lemma_power_square(b, n, e, a, q, r);
    let e = 2 * e;
    let a = r;
    let q = 5727498946018502878389763313159175311921834107122318886913431093023988119863int;
    let r = 7491069307792040294461436383193606152847416750014917778624519281395863069529int;
    lemma_power_square(b, n, e, a, q, r);
    let e = 2 * e;
    let a = r;
    let q = 2563756245885829043260459542313985910184420777850005620746384087360348157168int;
    let r = 19138863406062213644759667762617124005633209780065512982602664910657533149185int;
    lemma_power_square(b, n, e, a, q, r);
    let e = 2 * e;
    let a = r;
    let q = 16734833153152387045268214937052255587896269236571628515566733526204644264176int;
    let r = 1063966804988078721417191196459935357662008921709239972352136807312980047633int;
    lemma_power_square(b, n, e, a, q, r);
    let e = 2 * e;
    let a = r;
    let q = 51718421106016168997105476871125389201639386501983119270619008888945065159int;
    let r = 19887383362718182203517009867385956224532393031860387934578001712995117994586int;
    lemma_power_square(b, n, e, a, q, r);
    let e = 2 * e;
    let a = r;
}

/// The power of a base with the leading bits of an exponent.
proof fn lemma_power_field_order_ta_part_1()
    ensures
        power_is(
            19887383362718182203517009867385956224532393031860387934578001712995117994586int,
            1244870nat,
            21888242871839275222246405745257275088548364400416034343698204186575808495617int,
            9106372811044862143247842995360372051484568166637296865827210185930397359151int,
        ),
{
    let n = 21888242871839275222246405745257275088548364400416034343698204186575808495617int;
    let b = 19887383362718182203517009867385956224532393031860387934578001712995117994586int;
    lemma_power_one(b, n);
    let e = 1nat;
    let a = 19887383362718182203517009867385956224532393031860387934578001712995117994586int;
    let q = 18069427469875534254304101350584584051179285339172490063377446322153165794722int;
    let r = 11368207234942670888835120453873516417666490693300823184588242808005266577922int;
    lemma_power_square(b, n, e, a, q, r);
    let e = 2 * e;
    let a = r;
    let q = 5904363200523237699915744913664871167302279891440713779960886489658670430322int;
    let r = 10945236620154748055396050216833787909156199273451639663503130598895656939410int;
    lemma_power_square(b, n, e, a, q, r);
    let e = 2 * e;
    let a = r;
    let q = 5473175959012458437565157437387389359667214395480764551477048681680080606180int;
    let r = 10264829693514538752375104461414844078286386461657077025033696073485178035040int;
    lemma_power_square(b, n, e, a, q, r);
    let e = 2 * e;
    let a = r;
    let q = 9326495711109706944935435957514606543236651262215240782786094657813391763606int;
    let r = 2150823300841576429477739398499251059368067141954582072187681669951487178538int;
    lemma_power_times(b, n, e, a, q, r);
    let e = e + 1;
    let a = r;
    let q = 211348206364923566291645608380012156838919385923244803695738830404703456199int;
    let r = 3847145156018717669569934526916290178908088784110779585080645357257244837661int;
    lemma_power_square(b, n, e, a, q, r);
    let e = 2 * e;
    let a = r;
    let q = 676186112249337955091329844077858347329474528662948851548467545708650103150int;
    let r = 21467478303125272940038107231000097477408182777145276640423900478600871057371int;
    lemma_power_square(b, n, e, a, q, r);
    let e = 2 * e;
    let a = r;
    let q = 19505081944899485328672041955869872099068482374260443838689667777651203228441int;
    let r = 9383366395597863844326675904663057014189322186644347706953194131253075150309int;
    lemma_power_times(b, n, e, a, q, r);
    let e = e + 1;
    let a = r;
    let q = 4022596305677623601885113014406936744570351347633366550196723412535720752416int;
    let r = 15056911824520834937109636252901920226505985576317589198253645562458664634809int;
    lemma_power_square(b, n, e, a, q, r);
    let e = 2 * e;
    let a = r;
    let q = 13680521523184655625941343381172865707645941340067479903476134457727731929920int;
    let r = 1300403975597622903846685051410312590626692254129352954337104049960857983434int;
    lemma_power_times(b, n, e, a, q, r);
    let e = e + 1;
    let a = r;
    let q = 77258394365029428893464998086015265270869653319264239257975298854382613361int;
    let r = 14237118152650652685193246431789848129200278657916252334442947568134644293619int;
    lemma_power_square(b, n, e, a, q, r);
    let e = 2 * e;
    let a = r;
    let q = 12935667259355723652165341973679160313313412534133074052949968156017731692939int;
    let r = 2169693328439999533693667915830974033813082463194673605203427682639664998371int;
    lemma_power_times(b, n, e, a, q, r);
    let e = e + 1;
    let a = r;
    let q = 215072957982097963022027150041558034142200646039979023505269891968744614280int;
    let r = 21313502174850971732459327508605755981270224328628027608125599372333697042881int;
    lemma_power_square(b, n, e, a, q, r);
    let e = 2 * e;
    let a = r;
    let q = 19365181163021840598335068286408569665753054092584832713656177006143513442115int;
    let r = 14819568065853490431998768821021503852641535152581678570599209077963607132311int;
    lemma_power_times(b, n, e, a, q, r);
    let e = e + 1;
    let a = r;
    let q = 10033678762812899406985186015605466033696502746062048337065089701031030287059int;
    let r = 11319686272352452980721795385445314316944113868890589839707806933622606880318int;
    lemma_power_square(b, n, e, a, q, r);
    let e = 2 * e;
    let a = r;
    let q = 10284925188471959018292766848845537458071444242000192653969774499548869030470int;
    let r = 1438351641264461111671670162394028133530930992807052309498810282801839508358int;
    lemma_power_times(b, n, e, a, q, r);
    let e = e + 1;
    let a = r;
    let q = 94519028139526602506551941955728665480458123011849385514114965622303514644int;
    let r = 11792135338404596685700035068327294710063032554234266199419912302465782540816int;
    lemma_power_square(b, n, e, a, q, r);
    let e = 2 * e;
    let a = r;
    let q = 10714186493317285625921595307913883020596820730182509431967773574229125185898int;
    let r = 2824952862393365945584007396286625442475172332998998373325839108096768813110int;
    lemma_power_times(b, n, e, a, q, r);
    let e = e + 1;
    let a = r;
    let q = 364595674557858182308446299201103925121498725356904597389034346462866878942int;
    let r = 19388897044549424280955476213138269349932811611745544888140621022189031274886int;
    lemma_power_square(b, n, e, a, q, r);
    let e = 2 * e;
    let a = r;
    let q = 17616509043826520070415403673488989729669024666255873827728958296618640639947int;
    let r = 19653444880028055145972459341122198558479279254951039330808271913171001154897int;
    lemma_power_times(b, n, e, a, q, r);
    let e = e + 1;
    let a = r;
    let q = 17646820620272275652597745911298519684150446252664705298061666860863252018461int;
    let r = 8766722608512087080171624441403981456199748536462508002344934443740665495172int;
    lemma_power_square(b, n, e, a, q, r);
    let e = 2 * e;
    let a = r;
    let q = 3511265191299423358654439807759809333302914986872811726638813887396878901150int;
    let r = 3261624143483169028796553322256979301176971726659707298276703938074404050034int;
    lemma_power_square(b, n, e, a, q, r);
    let e = 2 * e;
    let a = r;
    let q = 2963470850828350589156051157207230962096622474801504924678383007610280058151int;
    let r = 11992335569606990941193015267863868878883707548698080435472504340927896491757int;
    lemma_power_times(b, n, e, a, q, r);
    let e = e + 1;
    let a = r;
    let q = 6570473164800739593546692098928991021952734231278559877338036625090009352496int;
    let r = 16043543460683709625427705240771923026183171744149941817522479441766344937017int;
    lemma_power_square(b, n, e, a, q, r);
    let e = 2 * e;
    let a = r;
    let q = 14576962672026320086502044906423609910719934435989656817727115317807799596382int;
    let r = 19244865795351529550880248235766576268247952643583710476287325421752300932268int;
    lemma_power_times(b, n, e, a, q, r);
    let e = e + 1;
    let a = r;
    let q = 16920721395941336083976304218598011879489211860061142006696316753023443005888int;
    let r = 16423001999720785371946422917184826696277875161667720706380761625192170430928int;
    lemma_power_square(b, n, e, a, q, r);
    let e = 2 * e;
    let a = r;
    let q = 12322368509070216111506872300351607903527869876696747082573656771449822848884int;
    let r = 14396386073991767168454798842890446356447455568493859062838631482004051599756int;
    lemma_power_square(b, n, e, a, q, r);
    let e = 2 * e;
    let a = r;
    let q = 9468824574222586420433882375330866022172207984434931647203111772840182080579int;
    let r = 15628487932526908984938666714527491693556692817305962140052465364027756937293int;
    lemma_power_square(b, n, e, a, q, r);
    let e = 2 * e;
    let a = r;
    let q = 11158942108202898075889753560136052130674687760549496104315271922495522161908int;
    let r = 9396018134078967886153563336226816540262375673434851963613903516758551810613int;
    lemma_power_square(b, n, e, a, q, r);
    let e = 2 * e;
    let a = r;
    let q = 8537104408499206292513061573918357004132115234745784469864073127419358578923int;
    let r = 1299149483062681068522750207697743888281522545888579697609501908052237260727int;
    lemma_power_times(b, n, e, a, q, r);
    let e = e + 1;
    let a = r;
    let q = 77109404771521800412841321392339190831984756410991324518162590589576333325int;
    let r = 10197724968330786672338857606971232042206779971229970554890937617005383032004int;
    lemma_power_square(b, n, e, a, q, r);
    let e = 2 * e;
    let a = r;
    let q = 9265525198173006084264088213484231469978968577096748433187746519697891575000int;
    let r = 15244739641526170958988945731743849767196707599290883564985929295084009955344int;
    lemma_power_times(b, n, e, a, q, r);
    let e = e + 1;
    let a = r;
    let q = 10617667580659053356666507551006118983311021933104772185287149858864127108305int;
    let r = 9106372811044862143247842995360372051484568166637296865827210185930397359151int;
    lemma_power_square(b, n, e, a, q, r);
    let e = 2 * e;
    let a = r;
}

/// The power of a base with the leading bits of an exponent.
proof fn lemma_power_field_order_ta_part_2()
    ensures
        power_is(
            19887383362718182203517009867385956224532393031860387934578001712995117994586int,
            5221368155409nat,
            21888242871839275222246405745257275088548364400416034343698204186575808495617int,
            19272061773257766154493213590587714436471070970009135873681125159807436892138int,
        ),
{
    let n = 21888242871839275222246405745257275088548364400416034343698204186575808495617int;
    let b = 19887383362718182203517009867385956224532393031860387934578001712995117994586int;
    lemma_power_field_order_ta_part_1();
    let e = 1244870nat;
    let a = 9106372811044862143247842995360372051484568166637296865827210185930397359151int;
    let q = 8273936295273972811886647368882175915119949491625817553352605226915569030051int;
    let r = 4916918033473076347903650629753016834053729725488927373213365373271340770019int;
    lemma_power_times(b, n, e, a, q, r);
    let e = e + 1;
    let a = r;
    let q = 1104523697468513207888782112805387725838633746636914013226557780078918554472int;
    let r = 3140905433471522902058232794337132530716364549985385938059473469713261511137int;
    lemma_power_square(b, n, e, a, q, r);
    let e = 2 * e;
    let a = r;
    let q = 450711690279318996547302416699982531016847872944813845101322945572147091812int;
    let r = 16228875420335880789139417576971417288637470620199223010495118470527476444765int;
    lemma_power_square(b, n, e, a, q, r);
    let e = 2 * e;
    let a = r;
    let q = 12032779376166092331220681155092131458159733856473710041329763717962841844928int;
    let r = 13113295961221147443900664770586431466136420268965574629458907639835614224649int;
    lemma_power_square(b, n, e, a, q, r);
    let e = 2 * e;
    let a = r;
    let q = 11914576490062255753170394268517198255568982375106563009429802962105978680485int;
    let r = 3793536515046747363373604597586962548988842370524999160727840680705603816069int;
    lemma_power_times(b, n, e, a, q, r);
    let e = e + 1;
    let a = r;
    let q = 657472569874849340878142015974076406529925186685477238933613490338593406541int;
    let r = 20160214304918745952006735213064119080861826621083570606860505088926684981964int;
    lemma_power_square(b, n, e, a, q, r);
    let e = 2 * e;
    let a = r;
    let q = 18568609787456075092883442505088519863941930878967648350985120782423598723854int;
    let r = 482207450314004041294224451611399162222145013380759353670312195966252949378int;
    lemma_power_square(b, n, e, a, q, r);
    let e = 2 * e;
    let a = r;
    let q = 438127650579547919817209026637447866175410620768579443611473691221345009813int;
    let r = 2996739751607275040379695593719688745407099958412201228824481976089503577887int;
    lemma_power_times(b, n, e, a, q, r);
    let e = e + 1;
    let a = r;
    let q = 410286435117055279359028029319537534888341722720422997842918737263269273110int;
    let r = 6094290997795205405374245880068296979814529864007358550174621597924064425899int;
    lemma_power_square(b, n, e, a, q, r);
    let e = 2 * e;
    let a = r;
    let q = 5537196480629654568171856026600955349547673698696957330408104533728264812264int;
    let r = 2617415013481209903744940741809536845249314027796150249738616373345508335926int;
    lemma_power_times(b, n, e, a, q, r);
    let e = e + 1;
    let a = r;
    let q = 312992751081492472966023087255757461626756916053148772138183467607465173469int;
    let r = 17680599965651598359575854295828142401609186176330266354764529942448831092103int;
    lemma_power_square(b, n, e, a, q, r);
    let e = 2 * e;
    let a = r;
    let q = 14281804938649747865294568709380349437256695841818612829915317376598452115140int;
    let r = 4528368682290868564685837735814873284584236476083033696500116140796599621229int;
    lemma_power_square(b, n, e, a, q, r);
    let e = 2 * e;
    let a = r;
    let q = 4114419075105864277979241684870228063096627394138278633180994705447352598831int;
    let r = 3147215033472168738070531281765892085942280715827835906450338159136249842467int;
    lemma_power_times(b, n, e, a, q, r);
    let e = e + 1;
    let a = r;
    let q = 452524331208725636755671620377650322916796667338724312786051662421812231475int;
    let r = 15487843031564573252153743780816094966197267726806418296630029835812789701014int;
    lemma_power_square(b, n, e, a, q, r);
    let e = 2 * e;
    let a = r;
    let q = 10959001285525606526404635031355481473985160234386057471512976462560773928419int;
    let r = 12505168273729825528683706878201686533533885506087312647866882362247879388673int;
    lemma_power_square(b, n, e, a, q, r);
    let e = 2 * e;
    let a = r;
    let q = 7144439801309569145803013744515301629736721993420278595278797160496488462169int;
    let r = 3382195769783455538796156913483410881953496538393934574504000934170493887656int;
    lemma_power_square(b, n, e, a, q, r);
    let e = 2 * e;
    let a = r;
    let q = 3073020720543347021397759806323118806384660321513867663513796489788387287075int;
    let r = 16252273846883396871093588571573471540589881681369133240620863572185841980141int;
    lemma_power_times(b, n, e, a, q, r);
    let e = e + 1;
    let a = r;
    let q = 12067501568795165274694383832529243619654201745370310697784959000348464485025int;
    let r = 10834778827842260075652653032533623442535531388968837097863060338529963744456int;
    lemma_power_square(b, n, e, a, q, r);
    let e = 2 * e;
    let a = r;
    let q = 9844344356978295538583779798363380966162177564236858537986921509747571913309int;
    let r = 2014118324977131902566196187501665203355618648780625279969601031364465048563int;
    lemma_power_times(b, n, e, a, q, r);
    let e = e + 1;
    let a = r;
    let q = 185335691437702151727935051919677774037317063834763925764917568916223947696int;
    let r = 7664168965624711476186667582027781338164977867654164310678420646927295116537int;
    lemma_power_square(b, n, e, a, q, r);
    let e = 2 * e;
    let a = r;
    let q = 2683609016839690442920344515931900847576083521117140174467092252667619967893int;
    let r = 9602176016973863418062276598674114488204862416885427567253770019030239647388int;
    lemma_power_square(b, n, e, a, q, r);
    let e = 2 * e;
    let a = r;
    let q = 8724416879143069791115876857849134957477219591862989225983073449298041666190int;
    let r = 1388314939143895554856261992933330407976501256206990185370294842686340952138int;
    lemma_power_times(b, n, e, a, q, r);
    let e = e + 1;
    let a = r;
    let q = 88057245231405681522054083379778264733316222317124935489949386646966189621int;
    let r = 17498961189925632285295239762225455734729964760007143445691023944965637379887int;
    lemma_power_square(b, n, e, a, q, r);
    let e = 2 * e;
    let a = r;
    let q = 13989868648638230402880587276053106577275010867715109120647749353991081086907int;
    let r = 10288251663200345908653492114942443380230605794581443065752389901649446546150int;
    lemma_power_square(b, n, e, a, q, r);
    let e = 2 * e;
    let a = r;
    let q = 4835843740637835688177772208259029810384410324730279348411743162345671099812int;
    let r = 307119223128796864065791110679337121265622890176933056152388659142508298496int;
    lemma_power_square(b, n, e, a, q, r);
    let e = 2 * e;
    let a = r;
    let q = 4309264008422883153672854420662521579649191924388201407460634028976104795int;
    let r = 18927734802221880564600932823691501756707719335900099513445528509375545678501int;
    lemma_power_square(b, n, e, a, q, r);
    let e = 2 * e;
    let a = r;
    let q = 17197502805670321478192671198885223614263606921115312845486601403163794971106int;
    let r = 12525195474002596788593398550509345640709166665546225324638172182177971953184int;
    lemma_power_times(b, n, e, a, q, r);
    let e = e + 1;
    let a = r;
    let q = 7167341964384572856350735561513761460412779248115103043010713518395026827902int;
    let r = 4537840472432399629437558176173670309661091350764918009860819215521707432322int;
    lemma_power_square(b, n, e, a, q, r);
    let e = 2 * e;
    let a = r;
    let q = 940778858943424754515170913318136174058270447834022690455632292995385589995int;
    let r = 976268407884412511099718422340257094676522323806372952572117032153293759769int;
    lemma_power_square(b, n, e, a, q, r);
    let e = 2 * e;
    let a = r;
    let q = 43543924919592066564208670569840902810048350331471923960310161944765230052int;
    let r = 20893990810417472467839753611564387272633718103148230514129240163624844251277int;
    lemma_power_square(b, n, e, a, q, r);
    let e = 2 * e;
    let a = r;
    let q = 19944901678127515424740773239033182014789727218939207765197944925574111964377int;
    let r = 5053589411624309538595015822557164827326860831484986029182492285273651495120int;
    lemma_power_square(b, n, e, a, q, r);
    let e = 2 * e;
    let a = r;
    let q = 4591628052338985819443457740446144223917835471922598598220587952412750299446int;
    let r = 19272061773257766154493213590587714436471070970009135873681125159807436892138int;
    lemma_power_times(b, n, e, a, q, r);
    let e = e + 1;
    let a = r;
}

/// The power of a base with the leading bits of an exponent.
proof fn lemma_power_field_order_ta_part_3()
    ensures
        power_is(
            19887383362718182203517009867385956224532393031860387934578001712995117994586int,
            10950002669853988980nat,
            21888242871839275222246405745257275088548364400416034343698204186575808495617int,
            13570592703479560277832276697894373333006765475719543461177390214290101891033int,
        ),
{
    let n = 21888242871839275222246405745257275088548364400416034343698204186575808495617int;
    let b = 19887383362718182203517009867385956224532393031860387934578001712995117994586int;
    lemma_power_field_order_ta_part_2();
    let e = 5221368155409nat;
    let a = 19272061773257766154493213590587714436471070970009135873681125159807436892138int;
    let q = 16968578390095933189185274044913654267267001601804384590970225076479522116783int;
    let r = 8318995113494787656113854582508808714265071035863030165842680459573628570933int;
    lemma_power_square(b, n, e, a, q, r);
    let e = 2 * e;
    let a = r;
    let q = 7558534779760869411929945055483116601957160958906514111201150059519673562632int;
    let r = 4998006742728694595932915812995758995273773377336835959616724148021263984794int;
    lemma_power_times(b, n, e, a, q, r);
    let e = e + 1;
    let a = r;
    let q = 1141255218457945277981340591677581224458090720564157897772384064176359414088int;
    let r = 624446543745675747923675330781701586016441222692191881098499303412627170140int;
    lemma_power_square(b, n, e, a, q, r);
    let e = 2 * e;
    let a = r;
    let q = 567364309584302611809639079759995086480605432032979507848055121946021329030int;
    let r = 17996585785984519210259344332595375659508985919163523013667432772053751000530int;
    lemma_power_times(b, n, e, a, q, r);
    let e = e + 1;
    let a = r;
    let q = 14796852440311237784346370410877431199389951479824011764577182230479443703142int;
    let r = 11472961764746958668734607590055590274519526145584479937593112616737504152286int;
    lemma_power_square(b, n, e, a, q, r);
    let e = 2 * e;
    let a = r;
    let q = 6013678321556600977925804969081154455691473043274563637279343724779682899010int;
    let r = 18279413924473496023601269758823832716116649928011065428500304285842040386626int;
    lemma_power_square(b, n, e, a, q, r);
    let e = 2 * e;
    let a = r;
    let q = 15265591458331525415293878041363245862760762712328312237382285392019487487809int;
    let r = 6347155966803283357009372138196499858661667284778260955157041152608642230723int;
    lemma_power_square(b, n, e, a, q, r);
    let e = 2 * e;
    let a = r;
    let q = 5766946424794218968400824884660939109145773810506081948737653758570211020676int;
    let r = 4136997703361440528592583878823726199226869154419529784924358483739634488586int;
    lemma_power_times(b, n, e, a, q, r);
    let e = e + 1;
    let a = r;
    let q = 781915208901356466564919960788373337621669506323757990109911781645424003895int;
    let r = 705095759998446635500500176666974167382362536695567363525633716993065851181int;
    lemma_power_square(b, n, e, a, q, r);
    let e = 2 * e;
    let a = r;
    let q = 640641177486072208737457981813007659388050651359771595385208834806823646984int;
    let r = 2640849947002151303260419054720042883340107720943209240770315766997320436938int;
    lemma_power_times(b, n, e, a, q, r);
    let e = e + 1;
    let a = r;
    let q = 318622581237615385080199601106057084030969234237335386306325328080591907714int;
    let r = 13927738814316284593104403807202073460954197881859917170238299630500797326306int;
    lemma_power_square(b, n, e, a, q, r);
    let e = 2 * e;
    let a = r;
    let q = 12654569066961504545895437752356518789169173681003366616668733467373677714019int;
    let r = 8611691590501116046000079325567377268247795300600861259274670071777442424593int;
    lemma_power_times(b, n, e, a, q, r);
    let e = e + 1;
    let a = r;
    let q = 3388176587958147621345824328201223555416229608507915925185372428057550606142int;
    let r = 2683927828776286447202184135129571206954354640940022226289149330570990936035int;
    lemma_power_square(b, n, e, a, q, r);
    let e = 2 * e;
    let a = r;
    let q = 329102186605739251991494417051914349534375564729895819967325060478594577126int;
    let r = 8462163274231202392347113213368238228708809257182572793140727212749122064483int;
    lemma_power_square(b, n, e, a, q, r);
    let e = 2 * e;
    let a = r;
    let q = 7688615577683826784959968676499818529581919751253695387531779721603438017394int;
    let r = 20427235325935546324493905017963573094104135451672690169597784501702918126940int;
    lemma_power_times(b, n, e, a, q, r);
    let e = e + 1;
    let a = r;
    let q = 19063747853328055949693848816593331339414372191574406936386930903568140661531int;
    let r = 12679802204086068246370337813703207531337069989468624473408066528825659753973int;
    lemma_power_square(b, n, e, a, q, r);
    let e = 2 * e;
    let a = r;
    let q = 11520709491054219777869145965545889114571058355417463731483471819787996992278int;
    let r = 6377289718080145844935987214666296705131519295133813938304342062665960144652int;
    lemma_power_times(b, n, e, a, q, r);
    let e = e + 1;
    let a = r;
    let q = 1858067108742441017848904235336114396516182217586685731803809227887510841478int;
    let r = 12097143259150941297716266306103873184006183586563721967626851670687819399178int;
    lemma_power_square(b, n, e, a, q, r);
    let e = 2 * e;
    let a = r;
    let q = 6685821054219871833867718584523018283213305978416160016122185072888930833378int;
    let r = 7007499516371690823349407908720391020422719910983890329330504798632636771458int;
    lemma_power_square(b, n, e, a, q, r);
    let e = 2 * e;
    let a = r;
    let q = 2243444106476289735542706080571538425652747077302734515319250596738247279860int;
    let r = 20633424168554374303859645603000248455474871473764884811381008267272741072144int;
    lemma_power_square(b, n, e, a, q, r);
    let e = 2 * e;
    let a = r;
    let q = 19450542257424653297888094463343068055150448399006454832739923685283995744842int;
    let r = 4113116971886347717774132596226181473164632773373753017366061474157205399222int;
    lemma_power_square(b, n, e, a, q, r);
    let e = 2 * e;
    let a = r;
    let q = 772914085588173885042689702904512484510283030527211220734257338273072598834int;
    let r = 1589919371786644967219761412295586975427639145892370156082955001718309894706int;
    lemma_power_square(b, n, e, a, q, r);
    let e = 2 * e;
    let a = r;
    let q = 1444580830342188422772691267987995147393631228954084445662255965054731495868int;
    let r = 20506597683629383123812284020983855471808378141768095895781694017494406451160int;
    lemma_power_times(b, n, e, a, q, r);
    let e = e + 1;
    let a = r;
    let q = 19212165682758504643748147343896242028381916502961891565574544890576500324831int;
    let r = 19918104478214508862649832259689466283534620321637644547734683928975525579873int;
    lemma_power_square(b, n, e, a, q, r);
    let e = 2 * e;
    let a = r;
    let q = 18097340290689115220005043730542323864433020951716171109034960430386290315024int;
    let r = 8320943382251502924803592329335887332456287204136857974206844155178071317770int;
    lemma_power_times(b, n, e, a, q, r);
    let e = e + 1;
    let a = r;
    let q = 3163255231406201230199192220669410096348613364170369974965343453624964541820int;
    let r = 3021040601872319741139361722013149390294625872227636295647566252002434569960int;
    lemma_power_square(b, n, e, a, q, r);
    let e = 2 * e;
    let a = r;
    let q = 2744879657794253364021492239905058495921375085936473110456148559554884461575int;
    let r = 16112964822020343756268476285081454000933308186803328400918061654524725819785int;
    lemma_power_times(b, n, e, a, q, r);
    let e = e + 1;
    let a = r;
    let q = 11861511080439162941065724242530787650816278988510113727017739757424798675420int;
    let r = 7649032155005067292746487905689543905730482949907110252100095306355821812085int;
    lemma_power_square(b, n, e, a, q, r);
    let e = 2 * e;
    let a = r;
    let q = 2673019175220118793288111299679816326775423423560958761563080855230199685580int;
    let r = 2336027863176514426586337265254954435283793222427534565179422915126843944365int;
    lemma_power_square(b, n, e, a, q, r);
    let e = 2 * e;
    let a = r;
    let q = 2122485661960259664602422658467483566455693182879330932703865765703018969604int;
    let r = 14691355988923850839133408842075967511032688337118025186919072984984264982222int;
    lemma_power_times(b, n, e, a, q, r);
    let e = e + 1;
    let a = r;
    let q = 9860816240803707066919125256861991534436502800686845771556243073028177866147int;
    let r = 12996941825540578480906139159178703256097332663878910765623279025672713879585int;
    lemma_power_square(b, n, e, a, q, r);
    let e = 2 * e;
    let a = r;
    let q = 7717407825084665088468629770482610193390256198027430494688883587833688527976int;
    let r = 13570592703479560277832276697894373333006765475719543461177390214290101891033int;
    lemma_power_square(b, n, e, a, q, r);
    let e = 2 * e;
    let a = r;
}

/// The power of a base with the leading bits of an exponent.
proof fn lemma_power_field_order_ta_part_4()
    ensures
        power_is(
            19887383362718182203517009867385956224532393031860387934578001712995117994586int,
            22963819999089632699329704nat,
            21888242871839275222246405745257275088548364400416034343698204186575808495617int,
            4540639845441858586151798178629411835325480566325556280531047800132567517295int,
        ),
{
    let n = 21888242871839275222246405745257275088548364400416034343698204186575808495617int;
    let b = 19887383362718182203517009867385956224532393031860387934578001712995117994586int;
    lemma_power_field_order_ta_part_3();
    let e = 10950002669853988980nat;
    let a = 13570592703479560277832276697894373333006765475719543461177390214290101891033int;
    let q = 8413694393014453105737293729424794772091351444958317787065230356075530808873int;
    let r = 2110299764469707759873646424273559955817931355961538428949035845025320597448int;
    lemma_power_square(b, n, e, a, q, r);
    let e = 2 * e;
    let a = r;
    let q = 1917391938311234258895577883422859583345065874431706494192706915823765915951int;
    let r = 5981502418634857013439406850360972166902766196107756718046873054867775529761int;
    lemma_power_times(b, n, e, a, q, r);
    let e = e + 1;
    let a = r;
    let q = 1634593118946334938224062150864567687674454214801703072648224883908095701835int;
    let r = 295507803048692763507499513819066962162550341005455718336351169109060359926int;
    lemma_power_square(b, n, e, a, q, r);
    let e = 2 * e;
    let a = r;
    let q = 268494689149533278955312500228834669351146987736413229153621887116198030561int;
    let r = 17136020068455328801817652829535829050115399669184488160180208400878809499int;
    lemma_power_times(b, n, e, a, q, r);
    let e = e + 1;
    let a = r;
    let q = 13415566772803670559671962575640666778492970287687782982513676730305103int;
    let r = 6872863972513874521916210067811265335041465066996616042801245890543684397450int;
    lemma_power_square(b, n, e, a, q, r);
    let e = 2 * e;
    let a = r;
    let q = 6244598135241364280902155104568592522753294937387155880695614226945141083626int;
    let r = 7236910120820197318960357418937389550026153823346689020579941831633520738458int;
    lemma_power_times(b, n, e, a, q, r);
    let e = e + 1;
    let a = r;
    let q = 2392739718920566604547158565692959164065820847851049664279755830398534612607int;
    let r = 8060434384946691599145871134050782288200469033648794277997213503829087774245int;
    lemma_power_square(b, n, e, a, q, r);
    let e = 2 * e;
    let a = r;
    let q = 2968287717495134521010901705502949297795101775171847810609336579395344410933int;
    let r = 8419872755509363614629545514061740058609856155713332195879087581608307939364int;
    lemma_power_square(b, n, e, a, q, r);
    let e = 2 * e;
    let a = r;
    let q = 7650190941985385961163210759352008505990864673920853649393181462924017348669int;
    let r = 10694985019851982963252916036363703383672035476782068549013184395539920999531int;
    lemma_power_times(b, n, e, a, q, r);
    let e = e + 1;
    let a = r;
    let q = 5225760023067886832651799519958740315303189771763142610030293666197256957263int;
    let r = 10879683191021392645444617713529192537991626858353706565321926572959210403690int;
    lemma_power_square(b, n, e, a, q, r);
    let e = 2 * e;
    let a = r;
    let q = 9885143899016961451002807196032553706108716658668688430755896197662909284531int;
    let r = 60669463584505492968334736907897874377406159692787478444676606683375021713int;
    lemma_power_times(b, n, e, a, q, r);
    let e = e + 1;
    let a = r;
    let q = 168162599126091513331411837094435718141579992744929196379395713795517435int;
    let r = 14377101158737885442254606668995519262490915188019867620738594759837776871974int;
    lemma_power_square(b, n, e, a, q, r);
    let e = 2 * e;
    let a = r;
    let q = 9443473326701674237929238756412299236357693765199511623567762484707540351738int;
    let r = 1312011452996403591606635777873209301029264670627543105088102327959175324330int;
    lemma_power_square(b, n, e, a, q, r);
    let e = 2 * e;
    let a = r;
    let q = 1192077175623180898018707358580956202815253191933494818735326419072648032920int;
    let r = 2807742080385489844810344111201542590374622528921201128920916597446242365740int;
    lemma_power_times(b, n, e, a, q, r);
    let e = e + 1;
    let a = r;
    let q = 360166671949258797763272748985330404138667106636087143445161374619442720884int;
    let r = 1907295511055028732940616608732350750746488489727882850297123126114657382172int;
    lemma_power_square(b, n, e, a, q, r);
    let e = 2 * e;
    let a = r;
    let q = 166197724860359239713651610371828970951292829943001739380943046505284302150int;
    let r = 2620884884882031657476241471458770620396484725009667214805511468658884761034int;
    lemma_power_square(b, n, e, a, q, r);
    let e = 2 * e;
    let a = r;
    let q = 2381303184563147286359393055447174071403767984066720780680360839624717748750int;
    let r = 1656548117360301531632427552778114384959158669041065059441887263453433533174int;
    lemma_power_times(b, n, e, a, q, r);
    let e = e + 1;
    let a = r;
    let q = 125371035089367477319954760309253132070847026141705443390142075840893791949int;
    let r = 901689348930463549055237247051837099136759424761624465915621425828682126743int;
    lemma_power_square(b, n, e, a, q, r);
    let e = 2 * e;
    let a = r;
    let q = 819263650410739397613586511482975708302892432860904620714537499553850724896int;
    let r = 18189065816675420272693824270850562906991262128567085394309875942004951032566int;
    lemma_power_times(b, n, e, a, q, r);
    let e = e + 1;
    let a = r;
    let q = 15115060501681536631265243709119481430189911529011068071030272308966775419480int;
    let r = 9597393000733312759589067273827623263908883801527325833694449861196676125196int;
    lemma_power_square(b, n, e, a, q, r);
    let e = 2 * e;
    let a = r;
    let q = 4208193090228843765138324977960567574943603095443361464224947863074834289598int;
    let r = 507964995350284372759885136822186510828108126171322898404000321121374346450int;
    lemma_power_square(b, n, e, a, q, r);
    let e = 2 * e;
    let a = r;
    let q = 11788449077983582431802431420234055328311216270416836520885877673123420085int;
    let r = 16667955622276838924864402392086659494281997268279402892576792073450855335055int;
    lemma_power_square(b, n, e, a, q, r);
    let e = 2 * e;
    let a = r;
    let q = 15144295742417393241024136651970910265616250498228001530462963392630250041925int;
    let r = 14477661959427415733710368178650080763782788741573763613762308388945277269505int;
    lemma_power_times(b, n, e, a, q, r);
    let e = e + 1;
    let a = r;
    let q = 9576040298836409295084414074894090343470522573216392508349384147467282060145int;
    let r = 5138215633418206683443505431824271151997143734013981129838801372923440060560int;
    lemma_power_square(b, n, e, a, q, r);
    let e = 2 * e;
    let a = r;
    let q = 1206184527926190614810748413178804632571014756714109874174648675528174347649int;
    let r = 45232628869056552540580577348995717544905066680295398993029354795416759167int;
    lemma_power_square(b, n, e, a, q, r);
    let e = 2 * e;
    let a = r;
    let q = 41097800133597076777598229636239341212913390459875790343145182525705542984int;
    let r = 13783125879986148758615708664702061218387294981549396881883185429225202768734int;
    lemma_power_times(b, n, e, a, q, r);
    let e = e + 1;
    let a = r;
    let q = 8679296923736132310855748721258837797819388598870287024405471146057762372781int;
    let r = 11531469009146212923808259815537434074092488040032277403759747495163529361879int;
    lemma_power_square(b, n, e, a, q, r);
    let e = 2 * e;
    let a = r;
    let q = 6075169134749537509117600117646033756917862374485491640739306981900788179973int;
    let r = 17525099374203337011935311950078454881238528572540971970871882371724360732300int;
    lemma_power_square(b, n, e, a, q, r);
    let e = 2 * e;
    let a = r;
    let q = 15923085821243326407257885576565197699159122106949234513221148714451516324855int;
    let r = 17732920888362776724220860368248049974941902555891729837146974959948179667265int;
    lemma_power_times(b, n, e, a, q, r);
    let e = e + 1;
    let a = r;
    let q = 14366456232880288003892204384972597376177324724122738423754255697973914546089int;
    let r = 373717234067227738514385497890789605824402871275368786318937438745611588312int;
    lemma_power_square(b, n, e, a, q, r);
    let e = 2 * e;
    let a = r;
    let q = 6380803240197372301824143453808492975508524197386393597558440738683963011int;
    let r = 19381248460747033356555627297350148323055799139650274294285466933375791386557int;
    lemma_power_square(b, n, e, a, q, r);
    let e = 2 * e;
    let a = r;
    let q = 17161395462240899391587902024843487327819368190675668359595772076675618171162int;
    let r = 4540639845441858586151798178629411835325480566325556280531047800132567517295int;
    lemma_power_square(b, n, e, a, q, r);
    let e = 2 * e;
    let a = r;
}

/// The power of a base with the leading bits of an exponent.
proof fn lemma_power_field_order_ta_part_5()
    ensures
        power_is(
            19887383362718182203517009867385956224532393031860387934578001712995117994586int,
            24079310519365410697332345421524nat,
            21888242871839275222246405745257275088548364400416034343698204186575808495617int,
            91837527713214808549529804097496681775558803922787068148678735504726616642int,
        ),
{
    let n = 21888242871839275222246405745257275088548364400416034343698204186575808495617int;
    let b = 19887383362718182203517009867385956224532393031860387934578001712995117994586int;
    lemma_power_field_order_ta_part_4();
    let e = 22963819999089632699329704nat;
    let a = 4540639845441858586151798178629411835325480566325556280531047800132567517295int;
    let q = 4125568500270740133373732407620086178855784150073901823148266635806273591475int;
    let r = 4855227999409162955529389784595090714441058947358961600424204889909885299795int;
    lemma_power_times(b, n, e, a, q, r);
    let e = e + 1;
    let a = r;
    let q = 1076981787175584138649704267183451012003920358811053042413554444956348128503int;
    let r = 10333240961712867678394309395505043558161376183049942189331891627591198770674int;
    lemma_power_square(b, n, e, a, q, r);
    let e = 2 * e;
    let a = r;
    let q = 9388653332667365272474496387683886318367321659449068258648573197635519499178int;
    let r = 10784687134939083361926423341127805753337425189394223641585796970865939468138int;
    lemma_power_times(b, n, e, a, q, r);
    let e = e + 1;
    let a = r;
    let q = 5313787738903458920486782720606481839583356202021272075342107915782061310724int;
    let r = 3184164788965501957319160606864071137937935878702530154875500171876688090336int;
    lemma_power_square(b, n, e, a, q, r);
    let e = 2 * e;
    let a = r;
    let q = 463212395012854886812992295419070429480402336937271063195842268771359986221int;
    let r = 12276408884665050930556538195799956012733893667554891136383408941918637699539int;
    lemma_power_square(b, n, e, a, q, r);
    let e = 2 * e;
    let a = r;
    let q = 11154191372799665091943134731301250474494687952879555493580017090484170500285int;
    let r = 12282495395037377970945592747471296953630327180741204275157734579109976945009int;
    lemma_power_times(b, n, e, a, q, r);
    let e = e + 1;
    let a = r;
    let q = 6892270613608995146004642020860830458468640662562374963100711932710841230290int;
    let r = 3838400252784291552893481084893749266876913121664654527718445435690257371151int;
    lemma_power_square(b, n, e, a, q, r);
    let e = 2 * e;
    let a = r;
    let q = 673115543666135707127078744214303137251079468147779958705838486914691762916int;
    let r = 6214050064813046086479572364214506903899554970661361846929559602365777925629int;
    lemma_power_square(b, n, e, a, q, r);
    let e = 2 * e;
    let a = r;
    let q = 1764162543064757295185910941382079843413659944462952001593939128983542547226int;
    let r = 4000246221387258985926840021954330985200749888611682272570325687939018537199int;
    lemma_power_square(b, n, e, a, q, r);
    let e = 2 * e;
    let a = r;
    let q = 731076035907417423166211468251202772779781114216590566705314113645418438299int;
    let r = 6362767072681828559261873286066669066288511467774642968714592293929020330118int;
    lemma_power_square(b, n, e, a, q, r);
    let e = 2 * e;
    let a = r;
    let q = 5781130480094612456998638522109066503851050805016396258420676521309736690525int;
    let r = 7268734544825308294334654740736125117284876358719199212171471635059308812223int;
    lemma_power_times(b, n, e, a, q, r);
    let e = e + 1;
    let a = r;
    let q = 2413830209784084128178146127387782510755017631625360522536422209920644177714int;
    let r = 12335615951299451064867383696136586161042997659845897176693716692254736122191int;
    lemma_power_square(b, n, e, a, q, r);
    let e = 2 * e;
    let a = r;
    let q = 11207986172082307216067055496260137488408334351018133183029054558918294995988int;
    let r = 5222433986469976014516201961503480767918979242811280033771781340852841873330int;
    lemma_power_times(b, n, e, a, q, r);
    let e = e + 1;
    let a = r;
    let q = 1246048707643239847885011875718471871446441930984726999948770876809217792669int;
    let r = 5412801563836630765129596080672553656493626782511715782900942555777464057127int;
    lemma_power_square(b, n, e, a, q, r);
    let e = 2 * e;
    let a = r;
    let q = 4918003715356892279508979611160868293105348237213076888212180147194104166303int;
    let r = 21742780173630483111741783780312308862665927251519968636901793995993166120471int;
    lemma_power_times(b, n, e, a, q, r);
    let e = e + 1;
    let a = r;
    let q = 21598284176892159658432388052533442892115080828051054250136369139369388412288int;
    let r = 12982226175490693674495396580896617984499332207905280312519698832511448320145int;
    lemma_power_square(b, n, e, a, q, r);
    let e = 2 * e;
    let a = r;
    let q = 11795488124159459691165254047743139652076287691785214983691048196471490092370int;
    let r = 21223848346911709632909085130090780695054563206758842922461619931180834592680int;
    lemma_power_times(b, n, e, a, q, r);
    let e = e + 1;
    let a = r;
    let q = 20579620816993215455572508782838388581070389801709842651507388731981225827848int;
    let r = 6911148470381529088601484566106460817244049511190853942494728521039205040184int;
    lemma_power_square(b, n, e, a, q, r);
    let e = 2 * e;
    let a = r;
    let q = 6279382950559855595850428230969650057768787098800692353277453826792113170785int;
    let r = 5043033315174024792565177414788967932072146590490459642245943399442979494479int;
    lemma_power_times(b, n, e, a, q, r);
    let e = e + 1;
    let a = r;
    let q = 1161910764919159598019272804336684799966644064801850108186915322919575227672int;
    let r = 17536731598229250790375370084494534640778634133570087018585013652395802367817int;
    lemma_power_square(b, n, e, a, q, r);
    let e = 2 * e;
    let a = r;
    let q = 14050326330397202673170135935304649231804709686344669592158648003396236814498int;
    let r = 8010317614097588224058119906813957091582663312062969126363474194378082290223int;
    lemma_power_square(b, n, e, a, q, r);
    let e = 2 * e;
    let a = r;
    let q = 7278074269435699046452608759732314253113771016242133219492481760759113766400int;
    let r = 5100284312873921243849246787130845112603430993950544081831313742255032863878int;
    lemma_power_times(b, n, e, a, q, r);
    let e = e + 1;
    let a = r;
    let q = 1188441677317788992280304066854997937010713403437114179074219114921686426057int;
    let r = 12450474208573284368767681438345477089102859456725774352377012251323998106715int;
    lemma_power_square(b, n, e, a, q, r);
    let e = 2 * e;
    let a = r;
    let q = 11312344946249476925231545990631396385456794887612684687871671384513266183743int;
    let r = 12245303271384022583223038560560558499068201895868269581339614131756088090559int;
    lemma_power_times(b, n, e, a, q, r);
    let e = e + 1;
    let a = r;
    let q = 6850593402409926691724801851904283189572555035033441606393122010212861382847int;
    let r = 9143235139796301673861718717015543060923964110530415539834758799069226450882int;
    lemma_power_square(b, n, e, a, q, r);
    let e = 2 * e;
    let a = r;
    let q = 3819344901785671284903855230322394538145718926962496316539551243246482064968int;
    let r = 18745015637615948686821116860729377248190927016777249582753497932922221332668int;
    lemma_power_square(b, n, e, a, q, r);
    let e = 2 * e;
    let a = r;
    let q = 17031486460936276373202114314016375171727319366190388420318568333634054866729int;
    let r = 18903509007716126825068793511255462107141873204492753791383163892145613308655int;
    lemma_power_times(b, n, e, a, q, r);
    let e = e + 1;
    let a = r;
    let q = 16325780689529471669240343295823891559267304031548768529729013203297775695302int;
    let r = 12442385362851201582006450859886080542300721783456125569958065611305503417691int;
    lemma_power_square(b, n, e, a, q, r);
    let e = 2 * e;
    let a = r;
    let q = 7072881748624568834690436571073285876314326502083435441220351119838697238266int;
    let r = 698429366452609515692496730249890382441720340385205815962464679803546091359int;
    lemma_power_square(b, n, e, a, q, r);
    let e = 2 * e;
    let a = r;
    let q = 634584175794840859891128095693588517916147224318213475010920157775713375873int;
    let r = 20100245496756770094493981838485629485759331239043473092918001254170229333733int;
    lemma_power_times(b, n, e, a, q, r);
    let e = e + 1;
    let a = r;
    let q = 18458305282681693481784571849862831200987348836950038503873742600325507002570int;
    let r = 16803086832337649789281325534177378488437607509392457692332388744550438979599int;
    lemma_power_square(b, n, e, a, q, r);
    let e = 2 * e;
    let a = r;
    let q = 12899332703326929534182990856416638540722022424214561866481342731884591482527int;
    let r = 91837527713214808549529804097496681775558803922787068148678735504726616642int;
    lemma_power_square(b, n, e, a, q, r);
    let e = 2 * e;
    let a = r;
}

/// A power of a base, computed from the bits of the exponent.
proof fn lemma_power_field_order_ta()
    ensures
        power_is(
            19887383362718182203517009867385956224532393031860387934578001712995117994586int,
            6164303492957545138517080427910171nat,
            21888242871839275222246405745257275088548364400416034343698204186575808495617int,
            23257270242051832856927188323373593540966463764665349092040522979454101912int,
        ),
{
    let n = 21888242871839275222246405745257275088548364400416034343698204186575808495617int;
    let b = 19887383362718182203517009867385956224532393031860387934578001712995117994586int;
    lemma_power_field_order_ta_part_5();
    let e = 24079310519365410697332345421524nat;
    let a = 91837527713214808549529804097496681775558803922787068148678735504726616642int;
    let q = 385327024460542068814210934423490833743761311588730753795358203160375736int;
    let r = 16118297779971053160096979257429319234672940697217544496826526183349802207052int;
    lemma_power_square(b, n, e, a, q, r);
    let e = 2 * e;
    let a = r;
    let q = 11869364062022067356848912258752671582058500449604204740309891939706152641435int;
    let r = 14600389542906009550254188680941465841352062573301604109784200676792108440309int;
    lemma_power_square(b, n, e, a, q, r);
    let e = 2 * e;
    let a = r;
    let q = 9739081206872879683947910422359256543472861626699148761337689566387452134599int;
    let r = 16357578952071220752576516463447062677146787934321671247909584593711030462898int;
    lemma_power_square(b, n, e, a, q, r);
    let e = 2 * e;
    let a = r;
    let q = 12224388715893273583652284649050532372789745627256375800576075001952424770329int;
    let r = 4742658598215895881816176167512635200582128996027840351339738194435926410411int;
    lemma_power_square(b, n, e, a, q, r);
    let e = 2 * e;
    let a = r;
    let q = 4309120209121906806411078167109017704486004029996777725022967818229855134685int;
    let r = 1175129119888465132887685273210207929218067657847402461721872202455144859201int;
    lemma_power_times(b, n, e, a, q, r);
    let e = e + 1;
    let a = r;
    let q = 63089963707708020900373214457681925655809584643607171623660700939287721516int;
    let r = 5916282535274819018476015220123404186383523250980192510800036307450511763029int;
    lemma_power_square(b, n, e, a, q, r);
    let e = 2 * e;
    let a = r;
    let q = 5375460220817516535583520589725218722812892760811233332077364239739027223235int;
    let r = 12320403275670860575129828287934069290752097690304116340726445908867558899999int;
    lemma_power_times(b, n, e, a, q, r);
    let e = e + 1;
    let a = r;
    let q = 6934879961079585663313644204977968894680188459074301187016270878258352709546int;
    let r = 5982757838372663818627223531699724723691345525142960920399166847216867140119int;
    lemma_power_square(b, n, e, a, q, r);
    let e = 2 * e;
    let a = r;
    let q = 1635279339789316776558363865539730407225258661744922362424251588291906542869int;
    let r = 11305902217484828497060533037488111875389663666982608695038419309235770228988int;
    lemma_power_square(b, n, e, a, q, r);
    let e = 2 * e;
    let a = r;
    let q = 10272401168839580249245678978566686043092515820842228821779167239913080054686int;
    let r = 12606184656366118374669055529783032261394199370209560577500226257986812947706int;
    lemma_power_times(b, n, e, a, q, r);
    let e = e + 1;
    let a = r;
    let q = 7260331152248714189115021436237033096593771138368903291009755956161732098777int;
    let r = 12956310471387722917188501083189072214004478186427836202558784780440275102027int;
    lemma_power_square(b, n, e, a, q, r);
    let e = 2 * e;
    let a = r;
    let q = 11771941439958799634330836948450370630783079163705561024702739976708173996230int;
    let r = 23257270242051832856927188323373593540966463764665349092040522979454101912int;
    lemma_power_times(b, n, e, a, q, r);
    let e = e + 1;
    let a = r;
}

/// A power of the base of the certificate, as the power of a power.
proof fn lemma_node_field_order_ta()
    ensures
        power_is(
            5int,
            2482076428581677126847623472682112819134464nat,
            21888242871839275222246405745257275088548364400416034343698204186575808495617int,
            23257270242051832856927188323373593540966463764665349092040522979454101912int,
        ),
{
    lemma_power_field_order_root();
    lemma_power_field_order_ta();
    lemma_power_of_power(
        5int,
        402653184nat,
        21888242871839275222246405745257275088548364400416034343698204186575808495617int,
        19887383362718182203517009867385956224532393031860387934578001712995117994586int,
        6164303492957545138517080427910171nat,
        23257270242051832856927188323373593540966463764665349092040522979454101912int,
    );
    assert(402653184nat * 6164303492957545138517080427910171nat
        == 2482076428581677126847623472682112819134464nat);
}

/// A power of a base, computed from the bits of the exponent.
proof fn lemma_power_field_order_taa()
    ensures
        power_is(
            23257270242051832856927188323373593540966463764665349092040522979454101912int,
            638174nat,
            21888242871839275222246405745257275088548364400416034343698204186575808495617int,
            7740382856488830440021062471495669005558519249383073335662966997885018076746int,
        ),
{
    let n = 21888242871839275222246405745257275088548364400416034343698204186575808495617int;
    let b = 23257270242051832856927188323373593540966463764665349092040522979454101912int;
    lemma_power_one(b, n);
    let e = 1nat;
    let a = 23257270242051832856927188323373593540966463764665349092040522979454101912int;
    let q = 24711925131630161251830451905331620919815685633311128076497927521765427int;
    let r = 12651763002314647229189147814168061540549586358975198994592090406697650422285int;
    lemma_power_square(b, n, e, a, q, r);
    let e = 2 * e;
    let a = r;
    let q = 7312926304955937844779302428006129899821211945077361463338491557246755112446int;
    let r = 7088324867493768638413182258783996609010286143031133187302712426103891472043int;
    lemma_power_square(b, n, e, a, q, r);
    let e = 2 * e;
    let a = r;
    let q = 2295494879206286231762009021430388414138439906592124103751102610003813341158int;
    let r = 18492734099286770894263106247810617704385870564365776754029148605799081889363int;
    lemma_power_square(b, n, e, a, q, r);
    let e = 2 * e;
    let a = r;
    let q = 19649385150731324745395670735396676808391109658329497395184490087691339685int;
    let r = 8200381018965136835493904025452743408646924375006478291063714423522130101411int;
    lemma_power_times(b, n, e, a, q, r);
    let e = e + 1;
    let a = r;
    let q = 3072254326212754356074204245017586861188281716540192481022067930954846442958int;
    let r = 12353246478633461858224192215152773650507477344474274803310765642571560675835int;
    lemma_power_square(b, n, e, a, q, r);
    let e = 2 * e;
    let a = r;
    let q = 13125895641896789257167995966508056231045870592001793856133982694182115875int;
    let r = 14061473916474223966426848537179812047814185386033546881569972341975962076645int;
    lemma_power_times(b, n, e, a, q, r);
    let e = e + 1;
    let a = r;
    let q = 9033390659150249976757686054983109146194411801366153703972974369061787695972int;
    let r = 253611227669317303087651935892992259428007533893893706332667208942963901301int;
    lemma_power_square(b, n, e, a, q, r);
    let e = 2 * e;
    let a = r;
    let q = 2938502426921105326734677518555002487170069119616436906007734005929965892int;
    let r = 16114576120609386422465290297518593909826548634120233170410143843469427997237int;
    lemma_power_square(b, n, e, a, q, r);
    let e = 2 * e;
    let a = r;
    let q = 17122482323846527785991242145926917428162028760220254719623775789429027123int;
    let r = 16621941401566939608716951849387523969718324739483578578469971419028132797253int;
    lemma_power_times(b, n, e, a, q, r);
    let e = e + 1;
    let a = r;
    let q = 12622709715661542250225143686823915109696116941560541207444555286772391404464int;
    let r = 14086450480926272798643639541198590876256287603925159166476277897360786111721int;
    lemma_power_square(b, n, e, a, q, r);
    let e = 2 * e;
    let a = r;
    let q = 14967505043891811164016942423241440798117520742718965182807941188389781908int;
    let r = 16914521335164194268671506542711656107595342645406628514875236068954347813316int;
    lemma_power_times(b, n, e, a, q, r);
    let e = e + 1;
    let a = r;
    let q = 13070991293038570287510723698101260607045209622610434471828619930987865605397int;
    let r = 14825513836240085890770222062149724168708701371536225448972664989607260870907int;
    lemma_power_square(b, n, e, a, q, r);
    let e = 2 * e;
    let a = r;
    let q = 15752794035848549397112616911085386844022189453103875744358711696632824884int;
    let r = 19619064709370388468746314053648283390173477731006060017019270357637611340756int;
    lemma_power_times(b, n, e, a, q, r);
    let e = e + 1;
    let a = r;
    let q = 17585134737593429433196880539198482759383607197973919957898764420866271740812int;
    let r = 868663419459162044274286202117527878289393501286851711244147600186484630532int;
    lemma_power_square(b, n, e, a, q, r);
    let e = 2 * e;
    let a = r;
    let q = 922995053282178631159214640213064855193736703826905203615277425920738985int;
    let r = 11794244378795640251757144717184092997633221683565409630967853136077421248439int;
    lemma_power_times(b, n, e, a, q, r);
    let e = e + 1;
    let a = r;
    let q = 6355201798574688093112028039768383526577620586075525292764162542736529639471int;
    let r = 8851838431751364801563763892011266407793259607006256086730931416725466238114int;
    lemma_power_square(b, n, e, a, q, r);
    let e = 2 * e;
    let a = r;
    let q = 3579777695295934232194583727048073467036128251094905300797217542147144960661int;
    let r = 16661180548484517466967062334395198862101357844519785575474282695445890354159int;
    lemma_power_square(b, n, e, a, q, r);
    let e = 2 * e;
    let a = r;
    let q = 12682376511197422829929756916281503794417866659212362241366694587836513258536int;
    let r = 19679872642250800718699686749397825999134877971375296466514167105749704760569int;
    lemma_power_square(b, n, e, a, q, r);
    let e = 2 * e;
    let a = r;
    let q = 20910774750167456160117924233271494880574828544930927100438872943580466177int;
    let r = 7800899265153321746642306007289754727859075890475631562702295071294963861719int;
    lemma_power_times(b, n, e, a, q, r);
    let e = e + 1;
    let a = r;
    let q = 2780215374134143732490986314870892467870547454530725404045452658223359415563int;
    let r = 8727807665180151352053673247975538195506000800988195600775858056961986547590int;
    lemma_power_square(b, n, e, a, q, r);
    let e = 2 * e;
    let a = r;
    let q = 9273699249330804577613498449639410645091186056658685084493989073204219628int;
    let r = 12657548391371910042092730634714128829185651683554807136999394475373754621604int;
    lemma_power_times(b, n, e, a, q, r);
    let e = e + 1;
    let a = r;
    let q = 7319615933449245365037394319732512445808610892401769586839137347065067923534int;
    let r = 3962797672706048875479838617335911613176191315225680361855108384314693382338int;
    lemma_power_square(b, n, e, a, q, r);
    let e = 2 * e;
    let a = r;
    let q = 717452080861568283080739703807603060353809735457914226112350454667902153394int;
    let r = 16790903802412012723031189514273486664219162047921256181798966904176739672146int;
    lemma_power_square(b, n, e, a, q, r);
    let e = 2 * e;
    let a = r;
    let q = 17841111761575457931710742767533794999280450527982202979713589801633944101int;
    let r = 8436357712215510672903444657214409372964121840158691329048535926662670237835int;
    lemma_power_times(b, n, e, a, q, r);
    let e = e + 1;
    let a = r;
    let q = 3251614662044249827834165715771939917235708014264772085047801491613600261710int;
    let r = 4345207039595310817967980187735519690159597541010108915162437919862877562155int;
    lemma_power_square(b, n, e, a, q, r);
    let e = 2 * e;
    let a = r;
    let q = 4616983417501811524030120810087241625783073031218131447211067929672006196int;
    let r = 7280425250380111655430719883924508136513381022161417097660244638584421497428int;
    lemma_power_times(b, n, e, a, q, r);
    let e = e + 1;
    let a = r;
    let q = 2421601045672165491953347896718971248749999089664635318668364959515469266533int;
    let r = 14842292406930990416320021366279927860202024452388477856674294043820675329323int;
    lemma_power_square(b, n, e, a, q, r);
    let e = 2 * e;
    let a = r;
    let q = 15770622043108820914347051453184046836963164759251814535436335869060572607int;
    let r = 13040554600289342025300166899643510278633546379662716041194316955508534202057int;
    lemma_power_times(b, n, e, a, q, r);
    let e = e + 1;
    let a = r;
    let q = 7769288073000885059665891865324177427608568104454474014156653107322549877819int;
    let r = 8885880376690297838004426244104443105117109662492751743608745270344156011926int;
    lemma_power_square(b, n, e, a, q, r);
    let e = 2 * e;
    let a = r;
    let q = 9441658815158504580708217588834078225571230483602405562636124887776395392int;
    let r = 18497692122595933478703933290921908586032367088158849348125669095645400405648int;
    lemma_power_times(b, n, e, a, q, r);
    let e = e + 1;
    let a = r;
    let q = 15632347277294052699817869181160096912977379719033779414242538456962278267574int;
    let r = 7740382856488830440021062471495669005558519249383073335662966997885018076746int;
    lemma_power_square(b, n, e, a, q, r);
    let e = 2 * e;
    let a = r;
}

/// A power of the base of the certificate, as the power of a power.
proof fn lemma_node_field_order_taa()
    ensures
        power_is(
            5int,
            1583996642733683218748855262055434666238317428736nat,
            21888242871839275222246405745257275088548364400416034343698204186575808495617int,
            7740382856488830440021062471495669005558519249383073335662966997885018076746int,
        ),
{
    lemma_node_field_order_ta();
    lemma_power_field_order_taa();
    lemma_power_of_power(
        5int,
        2482076428581677126847623472682112819134464nat,
        21888242871839275222246405745257275088548364400416034343698204186575808495617int,
        23257270242051832856927188323373593540966463764665349092040522979454101912int,
        638174nat,
        7740382856488830440021062471495669005558519249383073335662966997885018076746int,
    );
    assert(2482076428581677126847623472682112819134464nat * 638174nat
        == 1583996642733683218748855262055434666238317428736nat);
}

/// The power of a base with the leading bits of an exponent.
proof fn lemma_power_field_order_tab_part_1()
    ensures
        power_is(
            23257270242051832856927188323373593540966463764665349092040522979454101912int,
            11704609nat,
            21888242871839275222246405745257275088548364400416034343698204186575808495617int,
            7459096479732442091319329514748594350279410774131663975909451111130164919549int,
        ),
{
    let n = 21888242871839275222246405745257275088548364400416034343698204186575808495617int;
    let b = 23257270242051832856927188323373593540966463764665349092040522979454101912int;
    lemma_power_one(b, n);
    let e = 1nat;
    let a = 23257270242051832856927188323373593540966463764665349092040522979454101912int;
    let q = 24711925131630161251830451905331620919815685633311128076497927521765427int;
    let r = 12651763002314647229189147814168061540549586358975198994592090406697650422285int;
    lemma_power_square(b, n, e, a, q, r);
    let e = 2 * e;
    let a = r;
    let q = 7312926304955937844779302428006129899821211945077361463338491557246755112446int;
    let r = 7088324867493768638413182258783996609010286143031133187302712426103891472043int;
    lemma_power_square(b, n, e, a, q, r);
    let e = 2 * e;
    let a = r;
    let q = 7531672961234188239964862059747070592092474927614653052134407876013429840int;
    let r = 6006975048604045086612809252674393728197360876049364619900133868733443834936int;
    lemma_power_times(b, n, e, a, q, r);
    let e = e + 1;
    let a = r;
    let q = 1648544812200333658159113372083731079500585065335534087261113136312997263967int;
    let r = 15927797053705511234644635951080334622679805664389282034800309430551102591457int;
    lemma_power_square(b, n, e, a, q, r);
    let e = 2 * e;
    let a = r;
    let q = 16924020927928332747946577148927195540870247142687397644015110915526962812int;
    let r = 15811833550790593295165045655188670488553000384874475779299637435312954570780int;
    lemma_power_times(b, n, e, a, q, r);
    let e = e + 1;
    let a = r;
    let q = 11422300168259157661561366856641350304405999769765854145462824429785795203705int;
    let r = 20498345928794461281376750885629109869114265430369153562722571040663915147415int;
    lemma_power_square(b, n, e, a, q, r);
    let e = 2 * e;
    let a = r;
    let q = 19196707030198282788854565101299411236360790639576834565891101689504361116505int;
    let r = 20923743201002056883674801068781228347324191401976149084905143381626662323640int;
    lemma_power_square(b, n, e, a, q, r);
    let e = 2 * e;
    let a = r;
    let q = 20001743954730299908946481038652845351581004379823669000411097709371525708856int;
    let r = 15295146813671050590265354816704064413674470993746514319667949381471208765448int;
    lemma_power_square(b, n, e, a, q, r);
    let e = 2 * e;
    let a = r;
    let q = 16251800791879375756987845943984918623735183047826277720255964066511824051int;
    let r = 14039629039987478892839252419601634600297172938605331073154297881384187652109int;
    lemma_power_times(b, n, e, a, q, r);
    let e = e + 1;
    let a = r;
    let q = 9005345231894186755603575719725971650798642895529503305616316093457760916764int;
    let r = 10414044169681848988877834248481220203784399798108339207885850771888416324493int;
    lemma_power_square(b, n, e, a, q, r);
    let e = 2 * e;
    let a = r;
    let q = 4954820567511878710914859119658223217182858343534997451340440861439450040148int;
    let r = 18449713871599364321781653895332981825432585323120389061297101550201339675733int;
    lemma_power_square(b, n, e, a, q, r);
    let e = 2 * e;
    let a = r;
    let q = 19603674169404090407087405972240464535033608286635683713529258863261358443int;
    let r = 14377091730951097103275483095794251209008980413077900770175658786967183857165int;
    lemma_power_times(b, n, e, a, q, r);
    let e = e + 1;
    let a = r;
    let q = 9443460941586915504407954674649075345127102160712415363930728656879355912327int;
    let r = 11289320799269735459365013761713994110067162147386042564353910377642706066466int;
    lemma_power_square(b, n, e, a, q, r);
    let e = 2 * e;
    let a = r;
    let q = 5822704218655935585774310049291022078950469353659267625032475870281998686392int;
    let r = 13652628590532897274119035842032612900792075226195314250083185156850720185292int;
    lemma_power_square(b, n, e, a, q, r);
    let e = 2 * e;
    let a = r;
    let q = 8515725475197704728074482187311354138491618157745734565425455626179010510241int;
    let r = 13165925710851883809681152904843768342072408514740545457265852097753031011567int;
    lemma_power_square(b, n, e, a, q, r);
    let e = 2 * e;
    let a = r;
    let q = 13989404907326408678514718316805819568543330632313606693768768980983284664int;
    let r = 20623337708369516581853161643668034310332308393766519124498537856439761498416int;
    lemma_power_times(b, n, e, a, q, r);
    let e = e + 1;
    let a = r;
    let q = 19431530467009848710545048547541712325595335778896994880938564946366077513748int;
    let r = 14187282218684113153700484238393629571727210848803093675482714400638055266540int;
    lemma_power_square(b, n, e, a, q, r);
    let e = 2 * e;
    let a = r;
    let q = 15074643428080104745094981047308426092084496376205957580123323507777009652int;
    let r = 21599518081286411953900125065473339350554944770069749634190420139540474929196int;
    lemma_power_times(b, n, e, a, q, r);
    let e = e + 1;
    let a = r;
    let q = 21314601819593900728497142968176990101220209074783690221255712536781126204135int;
    let r = 12681750446612279990396715793960290092716193658152169809453537265429218430121int;
    lemma_power_square(b, n, e, a, q, r);
    let e = 2 * e;
    let a = r;
    let q = 7347633856761771307231251356361094124804677987408617967502229031868998049204int;
    let r = 4861950584712613696879195092577073285135281851533816244835494408272775735773int;
    lemma_power_square(b, n, e, a, q, r);
    let e = 2 * e;
    let a = r;
    let q = 1079966246107400354270484942148368248942632593047942746267908495569111584314int;
    let r = 21314989187209480712321389406343124502231914120082072801470126773449716955791int;
    lemma_power_square(b, n, e, a, q, r);
    let e = 2 * e;
    let a = r;
    let q = 22648161692829728590490483519609559773057406429926226986271721167905044562int;
    let r = 7596329728232674222828817907447788313787957871103676401247735422121945887638int;
    lemma_power_times(b, n, e, a, q, r);
    let e = e + 1;
    let a = r;
    let q = 2636311451673077670144432395623350977171646523484996362667383459637712396583int;
    let r = 7314786619363589893311934556466484309731889284255477586197114630050799942333int;
    lemma_power_square(b, n, e, a, q, r);
    let e = 2 * e;
    let a = r;
    let q = 2444513412982084805557934981088110033181637651339466747909563253516854097261int;
    let r = 19652829059746704788060397798401937358514281485525836595636820876697115277852int;
    lemma_power_square(b, n, e, a, q, r);
    let e = 2 * e;
    let a = r;
    let q = 17645714748009337246598801967888953211674595397766820629853019814656165489878int;
    let r = 11433394942392892932216880641956946334106226246338172998138739170228140869178int;
    lemma_power_square(b, n, e, a, q, r);
    let e = 2 * e;
    let a = r;
    let q = 12148510847412563619828988890397974648144784971704913547724390106882193843int;
    let r = 18041416829650584260727271301798173436129360327315370662267933413178661782205int;
    lemma_power_times(b, n, e, a, q, r);
    let e = e + 1;
    let a = r;
    let q = 14870664727499347860175454211884696371813510483231443131327890961648096160826int;
    let r = 2260767003104391754156009506001174335025596897614726692372552797294506562383int;
    lemma_power_square(b, n, e, a, q, r);
    let e = 2 * e;
    let a = r;
    let q = 233507434664906404000615087002192324617404069193787797362008391021712833575int;
    let r = 15949922005342084223582329776357412220452906535469873959087884555248832697914int;
    lemma_power_square(b, n, e, a, q, r);
    let e = 2 * e;
    let a = r;
    let q = 11622678598097917972986207697121165274038578785106871351395817502196995652818int;
    let r = 19313628491362581123197199336325687401298268289508830923899392716938573252690int;
    lemma_power_square(b, n, e, a, q, r);
    let e = 2 * e;
    let a = r;
    let q = 17041854281609942268627289651847165086638559694461458022561836715257587004913int;
    let r = 8107389633819573135575276602508926595750347085496530807219432982643274269779int;
    lemma_power_square(b, n, e, a, q, r);
    let e = 2 * e;
    let a = r;
    let q = 3002971369580832019623095670766766973676742424392392135733805581848042442880int;
    let r = 5355058461673329552453450470948475023350799400139732423998110704607219851881int;
    lemma_power_square(b, n, e, a, q, r);
    let e = 2 * e;
    let a = r;
    let q = 5689997252605298871258751042962972300245342753398477772857735430506070619int;
    let r = 7459096479732442091319329514748594350279410774131663975909451111130164919549int;
    lemma_power_times(b, n, e, a, q, r);
    let e = e + 1;
    let a = r;
}

/// The power of a base with the leading bits of an exponent.
proof fn lemma_power_field_order_tab_part_2()
    ensures
        power_is(
            23257270242051832856927188323373593540966463764665349092040522979454101912int,
            6136586543002nat,
            21888242871839275222246405745257275088548364400416034343698204186575808495617int,
            14513512690150222057937309088579919777002038056939309051691435984535126861644int,
        ),
{
    let n = 21888242871839275222246405745257275088548364400416034343698204186575808495617int;
    let b = 23257270242051832856927188323373593540966463764665349092040522979454101912int;
    lemma_power_field_order_tab_part_1();
    let e = 11704609nat;
    let a = 7459096479732442091319329514748594350279410774131663975909451111130164919549int;
    let q = 2541918079935926028446566602023640635268706041655965994700411569316421319294int;
    let r = 13219877769028792550555256817120617062276552030064659109526202558373085829003int;
    lemma_power_square(b, n, e, a, q, r);
    let e = 2 * e;
    let a = r;
    let q = 14046731464075723001368249443884982279570821660835916606192051434481285821int;
    let r = 8356549746158642201813955553178073933639709520834175676989993308897564607179int;
    lemma_power_times(b, n, e, a, q, r);
    let e = e + 1;
    let a = r;
    let q = 3190385087962799600316082951278828748406751333475366417993384508752145662367int;
    let r = 9164898112645605981332148365748697960200162642313188353152108293998296992602int;
    lemma_power_square(b, n, e, a, q, r);
    let e = 2 * e;
    let a = r;
    let q = 9738128062390170338881193097350961021556928865861532510937523964212267583int;
    let r = 11590564496963309631149121525901471705905530933212999175476004409018931371313int;
    lemma_power_times(b, n, e, a, q, r);
    let e = e + 1;
    let a = r;
    let q = 6137595701256836937607680129171480470898152524096101127296581825618914361709int;
    let r = 15784835961737816459346177926663372996206738976778631473454212423375600214516int;
    lemma_power_square(b, n, e, a, q, r);
    let e = 2 * e;
    let a = r;
    let q = 16772118156679883419982500878401744419059296167158681913052500561291592494int;
    let r = 6549979557118903857758764312611345825868908998238600649531901054282976655794int;
    lemma_power_times(b, n, e, a, q, r);
    let e = e + 1;
    let a = r;
    let q = 1960058303897578474358078545797581956446886926455728085369125358674413648177int;
    let r = 16268898417848960693124527398003304022027400816347915759411068487984869230227int;
    lemma_power_square(b, n, e, a, q, r);
    let e = 2 * e;
    let a = r;
    let q = 17286456901079160348530197194638874674060331308001256700964675294049055431int;
    let r = 16760541180649535607040061351326816334623864820197535868379605144425095348097int;
    lemma_power_times(b, n, e, a, q, r);
    let e = e + 1;
    let a = r;
    let q = 12834092819285475155057163182832577832742635300108966561717536327785867545994int;
    let r = 7212793353232446943412372900566798652864873367275103442404357853680906613111int;
    lemma_power_square(b, n, e, a, q, r);
    let e = 2 * e;
    let a = r;
    let q = 2376818836534709108515437070751253423913324244750663984672654933225447124749int;
    let r = 2216658875165073502033866185664461623790307788255235503450739426393218373188int;
    lemma_power_square(b, n, e, a, q, r);
    let e = 2 * e;
    let a = r;
    let q = 224484742682097244412616831866445029076162056016573570372208381491154836437int;
    let r = 13843646243763267666184007377415370215826754647476535371527490345814570886715int;
    lemma_power_square(b, n, e, a, q, r);
    let e = 2 * e;
    let a = r;
    let q = 14709514313768816186017213545847454782300629896969264386074710632206290063int;
    let r = 15180017613497189293890392283112920888661568978852284473896198572321050745209int;
    lemma_power_times(b, n, e, a, q, r);
    let e = e + 1;
    let a = r;
    let q = 10527703667001642592057040098597938052233721212767455529364132533082260025389int;
    let r = 861953202673634673368374426850057566763015512906413642387156411597921233668int;
    lemma_power_square(b, n, e, a, q, r);
    let e = 2 * e;
    let a = r;
    let q = 915865137643105290039005367470433868359682891991027771011838099611364936int;
    let r = 1460011747653856956476832755827995041037083747595381241277251132251894087704int;
    lemma_power_times(b, n, e, a, q, r);
    let e = e + 1;
    let a = r;
    let q = 97387182505625580730237496022875877424920716488827070030020571500106767091int;
    let r = 9485665817205681653300749669706993248533543239600884565630887836680330651469int;
    lemma_power_square(b, n, e, a, q, r);
    let e = 2 * e;
    let a = r;
    let q = 10078958581932438228743170262586324930121816264604250218386730537183636046int;
    let r = 7155401978702571821277611138830245875723445905454217598396064180057964298346int;
    lemma_power_times(b, n, e, a, q, r);
    let e = e + 1;
    let a = r;
    let q = 2339145164671610222369091812231140834973195302698166869768660111099435337144int;
    let r = 3839182292951652842657900152445169505141260468278063998503522279688257037868int;
    lemma_power_square(b, n, e, a, q, r);
    let e = 2 * e;
    let a = r;
    let q = 4079308723796787180349722138363090676924033224680172307289008092725378708int;
    let r = 20872651241481512561124620276257643964827287807938605388415953010245232080780int;
    lemma_power_times(b, n, e, a, q, r);
    let e = e + 1;
    let a = r;
    let q = 19904182003071426026118904047505977770076921842705552011606463864027380475259int;
    let r = 1622241706948117314678906998062643318357057259464862381965040513525166968597int;
    lemma_power_square(b, n, e, a, q, r);
    let e = 2 * e;
    let a = r;
    let q = 1723706831897440820775141537451373307835499135937388790622154298507518315int;
    let r = 10422129726640303666459946388856620187142179241814618686213259411697916932109int;
    lemma_power_times(b, n, e, a, q, r);
    let e = e + 1;
    let a = r;
    let q = 4962517488266158633501838859340568349363628204013859490273803018557357847110int;
    let r = 9581827171189116194490180754344210049250504012248018549016941691699524071011int;
    lemma_power_square(b, n, e, a, q, r);
    let e = 2 * e;
    let a = r;
    let q = 10181134467385157305733133950207742895874351897086264022059567279838564243int;
    let r = 8055719443221514478583783270492175617060655933771628157786479942522080450101int;
    lemma_power_times(b, n, e, a, q, r);
    let e = e + 1;
    let a = r;
    let q = 2964816140238854831742750032504567504460990805101807167476859565019079823338int;
    let r = 1741979378157078484673427549395578087065973459545080966159300815770843600655int;
    lemma_power_square(b, n, e, a, q, r);
    let e = 2 * e;
    let a = r;
    let q = 138635712866134357476120475760184888380414726698094321590756543256741063860int;
    let r = 13092948016244487378068747418946969041947482866340963707243348585430389327405int;
    lemma_power_square(b, n, e, a, q, r);
    let e = 2 * e;
    let a = r;
    let q = 7831843275854309909597065644278124100050872931075969483424518737764607578611int;
    let r = 6261877828476760409444428077402029732025924388056190130461236041771307586038int;
    lemma_power_square(b, n, e, a, q, r);
    let e = 2 * e;
    let a = r;
    let q = 6653534764408388047285185148684552063304048380251995122777569788760160192int;
    let r = 6778171120019654351235846970298364190907669844685486603397041180982510426192int;
    lemma_power_times(b, n, e, a, q, r);
    let e = e + 1;
    let a = r;
    let q = 2099008312420458880422433023149300494667190746569310479748916586122703780621int;
    let r = 8707217595289232382895337537288846944044718701667850860934548302089071582707int;
    lemma_power_square(b, n, e, a, q, r);
    let e = 2 * e;
    let a = r;
    let q = 9251821347913147396455127679321956427050994763716754074260344706360016950int;
    let r = 3350925856208904004015252381508520932175047655882547851864569852186994127634int;
    lemma_power_times(b, n, e, a, q, r);
    let e = e + 1;
    let a = r;
    let q = 513001621900672249844365390522286456907130924158777960922120975681728995450int;
    let r = 11346399838515589221439369563437896263021236967474282814818216542047544495306int;
    lemma_power_square(b, n, e, a, q, r);
    let e = 2 * e;
    let a = r;
    let q = 5881732492154518218062555822514449890694849231704053368664390462171724007220int;
    let r = 21602861914228762079763121220993258371597713612524021531999612505231209678896int;
    lemma_power_square(b, n, e, a, q, r);
    let e = 2 * e;
    let a = r;
    let q = 22954039777553358541277854673695023144167554674736714858218018927021648327int;
    let r = 94370667549413045069250380557409831049507521585433620977437012882084766393int;
    lemma_power_times(b, n, e, a, q, r);
    let e = e + 1;
    let a = r;
    let q = 406877013649176560672939491015166532195529466829407846711597282625176165int;
    let r = 14513512690150222057937309088579919777002038056939309051691435984535126861644int;
    lemma_power_square(b, n, e, a, q, r);
    let e = 2 * e;
    let a = r;
}

/// The power of a base with the leading bits of an exponent.
proof fn lemma_power_field_order_tab_part_3()
    ensures
        power_is(
            23257270242051832856927188323373593540966463764665349092040522979454101912int,
            12869354741831718816nat,
            21888242871839275222246405745257275088548364400416034343698204186575808495617int,
            17956436633923459205184522276222550612141158718118851901881695244204180738331int,
        ),
{
    let n = 21888242871839275222246405745257275088548364400416034343698204186575808495617int;
    let b = 23257270242051832856927188323373593540966463764665349092040522979454101912int;
    lemma_power_field_order_tab_part_2();
    let e = 6136586543002nat;
    let a = 14513512690150222057937309088579919777002038056939309051691435984535126861644int;
    let q = 9623524914288893061011714799396824740518192204015799913063370314504155118660int;
    let r = 11148292358630088467648066988512075352798765532291666861510328513731993469516int;
    lemma_power_square(b, n, e, a, q, r);
    let e = 2 * e;
    let a = r;
    let q = 11845576168000283227313744626837370910363486336653475168229723747721259834int;
    let r = 13909381438351987422504478509770171048571425663333848584767807517379222167014int;
    lemma_power_times(b, n, e, a, q, r);
    let e = e + 1;
    let a = r;
    let q = 8839032586141684604845187345555225389826780970057817062153836835525119485508int;
    let r = 9095693521001263675117730449479290772707288321869258124515890778259596657760int;
    lemma_power_square(b, n, e, a, q, r);
    let e = 2 * e;
    let a = r;
    let q = 9664594983499947678095203637452312956448773226897647573634076518062668667int;
    let r = 18904828619774897093741347492803346736736822442436579634478558707204032904581int;
    lemma_power_times(b, n, e, a, q, r);
    let e = e + 1;
    let a = r;
    let q = 16328060102205373797432955377202373948498184720424891171471202407438042934049int;
    let r = 11339717498928591559752112013015202088375368771490097880362977582348014222328int;
    lemma_power_square(b, n, e, a, q, r);
    let e = 2 * e;
    let a = r;
    let q = 12048974231751339734762646929561278309094269812528305604393374267575067318int;
    let r = 845935034308694131884729482868821224320783494501678723802237699879254945930int;
    lemma_power_times(b, n, e, a, q, r);
    let e = e + 1;
    let a = r;
    let q = 32693628559445847242812237061406830380152758503918537000025194256190817123int;
    let r = 18692254402788631908734922957031295021569186269710326352799989507882629515009int;
    lemma_power_square(b, n, e, a, q, r);
    let e = 2 * e;
    let a = r;
    let q = 19861384699735280801792919866936472140087295399407276698613614209928005727int;
    let r = 12960469957365549400341393645479204094884538746033186215241698800623389198649int;
    lemma_power_times(b, n, e, a, q, r);
    let e = e + 1;
    let a = r;
    let q = 7674155595736958379797027066210730015466021009499446429174938091472246431922int;
    let r = 11496297249823477598501166095732446307876334307831190144216155227739557539327int;
    lemma_power_square(b, n, e, a, q, r);
    let e = 2 * e;
    let a = r;
    let q = 6038166299147657659391492061572190778689256315601004753059284927434888003215int;
    let r = 3707137791097494635348783758759183688630308205516679797583248591296942204274int;
    lemma_power_square(b, n, e, a, q, r);
    let e = 2 * e;
    let a = r;
    let q = 627865410789294411839723722914881838611489875284097179871610362399189278894int;
    let r = 6216765108323549208838382315010444409839751048609000194286416762712754259478int;
    lemma_power_square(b, n, e, a, q, r);
    let e = 2 * e;
    let a = r;
    let q = 6605600413071892373932045505797029146897377654264111982588696306253427159int;
    let r = 17362894461843072761599075106986920747420338870860687071808741385002823659833int;
    lemma_power_times(b, n, e, a, q, r);
    let e = e + 1;
    let a = r;
    let q = 13773152365782764608380790393930631823791112491454574925583549770572493766601int;
    let r = 4654423967244104187270307618453835457951009253645022735508226092220768100072int;
    lemma_power_square(b, n, e, a, q, r);
    let e = 2 * e;
    let a = r;
    let q = 989739678680563826407334577688503317084072635399216676427085101943186933284int;
    let r = 6602506076402947065668479705503495497581495320720792810722432976528820988956int;
    lemma_power_square(b, n, e, a, q, r);
    let e = 2 * e;
    let a = r;
    let q = 7015468029699786012325219152920659868878029891747306404538477693066380724int;
    let r = 18759701245577644069968815801330864350917546559485087858713435933709243197164int;
    lemma_power_times(b, n, e, a, q, r);
    let e = e + 1;
    let a = r;
    let q = 16078329945621392700599706321254229052367650176744991731560879896261557396132int;
    let r = 2991766037428320529002084883349595084833711027485884662419505579145922889452int;
    lemma_power_square(b, n, e, a, q, r);
    let e = 2 * e;
    let a = r;
    let q = 408925653608549719550738819584402787846134233181258833336543423707205140232int;
    let r = 16193897934961291264272772706839332577085935193860091604782179049423170497160int;
    lemma_power_square(b, n, e, a, q, r);
    let e = 2 * e;
    let a = r;
    let q = 17206765419720138980974516472809183434717378635982254756279541044571781496int;
    let r = 4611984882818733142511186317252308340784157172879632469984613956320948866888int;
    lemma_power_times(b, n, e, a, q, r);
    let e = e + 1;
    let a = r;
    let q = 971773051125741898412873506175163905860868073545754310833085417813852412633int;
    let r = 11268189997357983030570288937934712062965360120661677220216220613217486874983int;
    lemma_power_square(b, n, e, a, q, r);
    let e = 2 * e;
    let a = r;
    let q = 11972972953644786898680806151697654742061044944064751750902032191050962895int;
    let r = 11931658518121626833553875358468773378913971723038963846082745251372448136281int;
    lemma_power_times(b, n, e, a, q, r);
    let e = e + 1;
    let a = r;
    let q = 6504152746597399621446781799806349565107864086423706358468118200694661652850int;
    let r = 18379555189667040514378898870244466198592905067340252410345876490813147952511int;
    lemma_power_square(b, n, e, a, q, r);
    let e = 2 * e;
    let a = r;
    let q = 19529127325462336305663718045776543708148582922269674783128645545095090711int;
    let r = 1733921299585931598142259552589870380174048436518260853839647808730069387345int;
    lemma_power_times(b, n, e, a, q, r);
    let e = e + 1;
    let a = r;
    let q = 137356072424882150270982106362663580648447323583862996416305407411990152729int;
    let r = 2733225013194022636695262293522821519609850287948594482978235093400089060232int;
    lemma_power_square(b, n, e, a, q, r);
    let e = 2 * e;
    let a = r;
    let q = 2904177970629740564431733549228811259084334368281132397842851289809816779int;
    let r = 19483525375894474364019165925831141704372913725323030814074314518795239805941int;
    lemma_power_times(b, n, e, a, q, r);
    let e = e + 1;
    let a = r;
    let q = 17342998398538208989144795327878281228014164861102207005494047996690693437065int;
    let r = 9377075512099757884018984949124050787762565840262923207672915278146621051376int;
    lemma_power_square(b, n, e, a, q, r);
    let e = 2 * e;
    let a = r;
    let q = 4017204381113128250200907408224387717173946149487183301833956747704483128128int;
    let r = 16154341313324079037054597135335276139433278518856957828455985860661694078400int;
    lemma_power_square(b, n, e, a, q, r);
    let e = 2 * e;
    let a = r;
    let q = 17164734679990781551449943266073346500675237304530426429806629479250926400int;
    let r = 15387124127749191673259721848714491076024033782626535029696157973322928312000int;
    lemma_power_times(b, n, e, a, q, r);
    let e = e + 1;
    let a = r;
    let q = 10816929906574360462327384252965797631744668158261069845518549831315404442422int;
    let r = 72113475420236303646032582009620203278903327442928951537319970238828135626int;
    lemma_power_square(b, n, e, a, q, r);
    let e = 2 * e;
    let a = r;
    let q = 237586606089593265419642334956959443586786985965323414020629414743548213int;
    let r = 6009937970102147903449644105465044685598272076105930441959019532206811729455int;
    lemma_power_square(b, n, e, a, q, r);
    let e = 2 * e;
    let a = r;
    let q = 1650171492337813523570973578798235325407407085583909262936002854949496904645int;
    let r = 19888236785032417315772545345817512475247514673236798232991802415532565156060int;
    lemma_power_square(b, n, e, a, q, r);
    let e = 2 * e;
    let a = r;
    let q = 18070978320804747177123675323069672947457927125455657044950970943886619226353int;
    let r = 5835229960243053602055326242273123194839586967401593944366561848782823328799int;
    lemma_power_square(b, n, e, a, q, r);
    let e = 2 * e;
    let a = r;
    let q = 1555625496678204827052086208908045325751139138769654965378733148329034668710int;
    let r = 17956436633923459205184522276222550612141158718118851901881695244204180738331int;
    lemma_power_square(b, n, e, a, q, r);
    let e = 2 * e;
    let a = r;
}

/// The power of a base with the leading bits of an exponent.
proof fn lemma_power_field_order_tab_part_4()
    ensures
        power_is(
            23257270242051832856927188323373593540966463764665349092040522979454101912int,
            26988993035541872782166675nat,
            21888242871839275222246405745257275088548364400416034343698204186575808495617int,
            3260737060742801550051222028105394493059345698241582474467925772120882408061int,
        ),
{
    let n = 21888242871839275222246405745257275088548364400416034343698204186575808495617int;
    let b = 23257270242051832856927188323373593540966463764665349092040522979454101912int;
    lemma_power_field_order_tab_part_3();
    let e = 12869354741831718816nat;
    let a = 17956436633923459205184522276222550612141158718118851901881695244204180738331int;
    let q = 19079544293467761389961184238951552741741965904202019617227721984953687178int;
    let r = 17447641587335750362660903774651286095467237353176356311339790168337276690046int;
    lemma_power_times(b, n, e, a, q, r);
    let e = e + 1;
    let a = r;
    let q = 13907932159862198547307131673375121366841674171101588986229937192956360506070int;
    let r = 13238512182729862662068971033816108052343081367763944874433900352706058586926int;
    lemma_power_square(b, n, e, a, q, r);
    let e = 2 * e;
    let a = r;
    let q = 14066531390355121204571520746583338597191272377524852539535152048692627298int;
    let r = 10249542070032708937509023064072029447318325801967390105815540866760467249646int;
    lemma_power_times(b, n, e, a, q, r);
    let e = e + 1;
    let a = r;
    let q = 4799522431310757174342466217335660602279441286354386384249373589993519947380int;
    let r = 10878548938090758648425160961348401364279222995888378816189486296792886491856int;
    lemma_power_square(b, n, e, a, q, r);
    let e = 2 * e;
    let a = r;
    let q = 11558961309775646534021253000837068688949289894399275330648970167965624871int;
    let r = 21238503943894391141833849659580961614333983637907492276317805314634912338265int;
    lemma_power_times(b, n, e, a, q, r);
    let e = e + 1;
    let a = r;
    let q = 20608052113454720963794064867272866806870756633208111945546089268889565642283int;
    let r = 18822591871726753206354609747608405294780477388593195043021368471585187836614int;
    lemma_power_square(b, n, e, a, q, r);
    let e = 2 * e;
    let a = r;
    let q = 16186313668211913118286072574737711936636274229742357339607320362043062792073int;
    let r = 11460793751671689336157606477902333357817075996656764865118806056351756140955int;
    lemma_power_square(b, n, e, a, q, r);
    let e = 2 * e;
    let a = r;
    let q = 6000929091816106831480577601507399703903445436811591211067096719437055456979int;
    let r = 1933189971650721218542842910289492791199871051152951194252089758275374750982int;
    lemma_power_square(b, n, e, a, q, r);
    let e = 2 * e;
    let a = r;
    let q = 2054103742505086835029022533649172837076661886303631378182339839544197798int;
    let r = 9513777907078465984380065064987988583480752610154271817323067183267986026218int;
    lemma_power_times(b, n, e, a, q, r);
    let e = e + 1;
    let a = r;
    let q = 4135186665973273265868596940479809419310830887338587380957577111802151033685int;
    let r = 4555169798295754352587162629245268119098161348187217308880910175333241524879int;
    lemma_power_square(b, n, e, a, q, r);
    let e = 2 * e;
    let a = r;
    let q = 947977963000471358282642101344169371728343755830040140832202967684527396144int;
    let r = 3246629984390285208475612315894517226839970804422002510051756948382329263793int;
    lemma_power_square(b, n, e, a, q, r);
    let e = 2 * e;
    let a = r;
    let q = 3449694494209915955347259923012037724598795788462661837993849145367567018int;
    let r = 303569988570528612754448531930117006014882940276512863606992967910946912110int;
    lemma_power_times(b, n, e, a, q, r);
    let e = e + 1;
    let a = r;
    let q = 4210239190980206989856533230543543078992606155786882052561112155465799948int;
    let r = 8819886586555119917511296104837184701153551548785220032371180602792707824184int;
    lemma_power_square(b, n, e, a, q, r);
    let e = 2 * e;
    let a = r;
    let q = 3553981005016058450817361421255536278888248691977601234390927767141594623693int;
    let r = 2722530769082076023419604020773164451692220381073216638578388665409900412275int;
    lemma_power_square(b, n, e, a, q, r);
    let e = 2 * e;
    let a = r;
    let q = 338637223280033592994005372621617312447351408787696548282027649868724688053int;
    let r = 21719190697139421213795129993990486043096820074750913776934913709069427911924int;
    lemma_power_square(b, n, e, a, q, r);
    let e = 2 * e;
    let a = r;
    let q = 23077644488855378071219159846432762082292120201196269465669701257611552880int;
    let r = 20434083702307593130708123469248344171225446462692576193328872142754812271728int;
    lemma_power_times(b, n, e, a, q, r);
    let e = e + 1;
    let a = r;
    let q = 19076532510982038403723513837485445554319539783486363711486340884752879805764int;
    let r = 17295500753543820822794412983600647811018225467212987915000146433796102769596int;
    lemma_power_square(b, n, e, a, q, r);
    let e = 2 * e;
    let a = r;
    let q = 13666439470145486850393420722753094890337990402742552896978506692532200352840int;
    let r = 7131951343109398360636879345305772984970616698417572073802480154784868500936int;
    lemma_power_square(b, n, e, a, q, r);
    let e = 2 * e;
    let a = r;
    let q = 7578028109020234584163083821809549934021307599600204728547109505689231637int;
    let r = 8163978598819534806610998695088179445471421125376301260861346289669999154603int;
    lemma_power_times(b, n, e, a, q, r);
    let e = e + 1;
    let a = r;
    let q = 3045038697360849899086069432564183081695095413648382637184577877324225421005int;
    let r = 15309119728577678246780817666293901382983132305444337146216759754057173852524int;
    lemma_power_square(b, n, e, a, q, r);
    let e = 2 * e;
    let a = r;
    let q = 10707535924021487219381582739329305897370981510085696478405912380539532841209int;
    let r = 1590312820067026729631349692603468872304743589785066407557154637916067689623int;
    lemma_power_square(b, n, e, a, q, r);
    let e = 2 * e;
    let a = r;
    let q = 1689780913080229335781872342665345533299966383783018574220620335196272082int;
    let r = 20086507911872768390319049757614066616623197046075885378705306424333190394582int;
    lemma_power_times(b, n, e, a, q, r);
    let e = e + 1;
    let a = r;
    let q = 18433083114808466543313468397774094249239868922305858243450121078816453217991int;
    let r = 20969485952067547963492713163329338726068701946641481973284903932652585909277int;
    lemma_power_square(b, n, e, a, q, r);
    let e = 2 * e;
    let a = r;
    let q = 20089293766914808460784513846352721107201789608220745425265888985436459834727int;
    let r = 8428772478850611057463882295416245293179075792675372590935596516490550771170int;
    lemma_power_square(b, n, e, a, q, r);
    let e = 2 * e;
    let a = r;
    let q = 3245770156892434463347699077784148268780262085773273993007093884060819841203int;
    let r = 4740342662824879719202373898048258314180923171731067957238583082717441661649int;
    lemma_power_square(b, n, e, a, q, r);
    let e = 2 * e;
    let a = r;
    let q = 5036833289669254185563969981894382549234134849572126479852911937971886606int;
    let r = 8673304226082181094513453939183550893657648477933013823062667186034095966986int;
    lemma_power_times(b, n, e, a, q, r);
    let e = e + 1;
    let a = r;
    let q = 3436831665229678759490100747054847840339990119407746807999450361054940855571int;
    let r = 1335862468272262414758927321330854651489119393504077610078978419462018391889int;
    lemma_power_square(b, n, e, a, q, r);
    let e = 2 * e;
    let a = r;
    let q = 81529090507049315770829022986156872513841855415216742526007628100444521931int;
    let r = 7499382828140721055901648460171769719025482712553585234515902717639707111894int;
    lemma_power_square(b, n, e, a, q, r);
    let e = 2 * e;
    let a = r;
    let q = 2569449870065609073878920366700276278925881784359450684432516685043899032268int;
    let r = 7644804711580725441488869845720756961729143742608198234654441781483416697880int;
    lemma_power_square(b, n, e, a, q, r);
    let e = 2 * e;
    let a = r;
    let q = 8122958529197080967234158140830400759555265106819160695042470871208331584int;
    let r = 14082629906956600739592094662901534672146885250492183516622922910940487679232int;
    lemma_power_times(b, n, e, a, q, r);
    let e = e + 1;
    let a = r;
    let q = 9060593226122383234694857952633374500303728966812404945559588470520229156675int;
    let r = 1726474022609748776585048842435018856931224894975918406599139406060980316349int;
    lemma_power_square(b, n, e, a, q, r);
    let e = 2 * e;
    let a = r;
    let q = 1834458487363410703954906303736059793807828528386834064876720839252806331int;
    let r = 3260737060742801550051222028105394493059345698241582474467925772120882408061int;
    lemma_power_times(b, n, e, a, q, r);
    let e = e + 1;
    let a = r;
}

/// A power of a base, computed from the bits of the exponent.
proof fn lemma_power_field_order_tab()
    ensures
        power_is(
            23257270242051832856927188323373593540966463764665349092040522979454101912int,
            13818364434197438864469338081nat,
            21888242871839275222246405745257275088548364400416034343698204186575808495617int,
            10319729009698457982551833481981775651099724702896986616832430792664384789960int,
        ),
{
    let n = 21888242871839275222246405745257275088548364400416034343698204186575808495617int;
    let b = 23257270242051832856927188323373593540966463764665349092040522979454101912int;
    lemma_power_field_order_tab_part_4();
    let e = 26988993035541872782166675nat;
    let a = 3260737060742801550051222028105394493059345698241582474467925772120882408061int;
    let q = 485758781166528631236741807577805920519306324507575928458936666449398636425int;
    let r = 17713011671623997307785856351711076873336272016462850091601232018415728730496int;
    lemma_power_square(b, n, e, a, q, r);
    let e = 2 * e;
    let a = r;
    let q = 18820894014182728244661926593137551163247866564054780618513084670663491866int;
    let r = 9917696939245673944948381362394630589264848220409885579502747474369990157030int;
    lemma_power_times(b, n, e, a, q, r);
    let e = e + 1;
    let a = r;
    let q = 4493769241992047156199368486554897343118258930074452210826953083799975339606int;
    let r = 7517239401060926031124311740946517989282547376925618213900875982854520913998int;
    lemma_power_square(b, n, e, a, q, r);
    let e = 2 * e;
    let a = r;
    let q = 7987414487693080164089360909586990296146910426770458225214076645733430693int;
    let r = 11031990338189655764134925706991904040600892198832338963013137837991815591595int;
    lemma_power_times(b, n, e, a, q, r);
    let e = e + 1;
    let a = r;
    let q = 5560282364122133197893261364026225991229842259529323739682746264614707624413int;
    let r = 10976365424388196660924748923449075642088067564234417437372137597390441946204int;
    lemma_power_square(b, n, e, a, q, r);
    let e = 2 * e;
    let a = r;
    let q = 11662895849851238802547148318424291829513635146407696695368057456270484805int;
    let r = 17695616138646098136019324263161658247255429913096409468945708371005929942363int;
    lemma_power_times(b, n, e, a, q, r);
    let e = e + 1;
    let a = r;
    let q = 14306074377910968242032403165448345745340114627877459199310046094211588979716int;
    let r = 17538310242010717818660676108998598499224112232981431232426412289022614118997int;
    lemma_power_square(b, n, e, a, q, r);
    let e = 2 * e;
    let a = r;
    let q = 18635265666398984181882301629649185072513478485033706698427352201614540073int;
    let r = 6625566145511233457831791301281794101789157657483804995529057838790241862223int;
    lemma_power_times(b, n, e, a, q, r);
    let e = e + 1;
    let a = r;
    let q = 2005557367285179947092902346213850312001721863268230583845418448093249385452int;
    let r = 15953224514846118751964701761780012189046239785072957869124075715349028937845int;
    lemma_power_square(b, n, e, a, q, r);
    let e = 2 * e;
    let a = r;
    let q = 11627492161489389705333661193400083111812547986944944465364114520740867980782int;
    let r = 515054308147869554222847540637681376821749434427573762974978046320986011531int;
    lemma_power_square(b, n, e, a, q, r);
    let e = 2 * e;
    let a = r;
    let q = 12119791519810970264042917883573109687141429724121628512156797172842087249int;
    let r = 16299747907644316489106309814818071738645153979122001361343491149430316876328int;
    lemma_power_square(b, n, e, a, q, r);
    let e = 2 * e;
    let a = r;
    let q = 12138104616637505277851085723984570492335620541969802493701531822016028054874int;
    let r = 21578024481064797832930174834577061775990865743765201537197238894022582276326int;
    lemma_power_square(b, n, e, a, q, r);
    let e = 2 * e;
    let a = r;
    let q = 21272202763451258357960320830891414396895048853523042677603774726341468144245int;
    let r = 2705042814902521169951916935987591750281793843946875229837762141221613784111int;
    lemma_power_square(b, n, e, a, q, r);
    let e = 2 * e;
    let a = r;
    let q = 2874233081699263150755331488098624478785929407803027805578678167811581216int;
    let r = 10319729009698457982551833481981775651099724702896986616832430792664384789960int;
    lemma_power_times(b, n, e, a, q, r);
    let e = e + 1;
    let a = r;
}

/// A power of the base of the certificate, as the power of a power.
proof fn lemma_node_field_order_tab()
    ensures
        power_is(
            5int,
            34298236643672846625287783183359514941925500569462300788966965414723584nat,
            21888242871839275222246405745257275088548364400416034343698204186575808495617int,
            10319729009698457982551833481981775651099724702896986616832430792664384789960int,
        ),
{
    lemma_node_field_order_ta();
    lemma_power_field_order_tab();
    lemma_power_of_power(
        5int,
        2482076428581677126847623472682112819134464nat,
        21888242871839275222246405745257275088548364400416034343698204186575808495617int,
        23257270242051832856927188323373593540966463764665349092040522979454101912int,
        13818364434197438864469338081nat,
        10319729009698457982551833481981775651099724702896986616832430792664384789960int,
    );
    assert(2482076428581677126847623472682112819134464nat * 13818364434197438864469338081nat
        == 34298236643672846625287783183359514941925500569462300788966965414723584nat);
}

/// A power of a base, computed from the bits of the exponent.
proof fn lemma_power_field_order_taba()
    ensures
        power_is(
            10319729009698457982551833481981775651099724702896986616832430792664384789960int,
            58nat,
            21888242871839275222246405745257275088548364400416034343698204186575808495617int,
            8299083658399422953216871473066571686783765754016288837524968026835148283600int,
        ),
{
    let n = 21888242871839275222246405745257275088548364400416034343698204186575808495617int;
    let b = 10319729009698457982551833481981775651099724702896986616832430792664384789960int;
    lemma_power_one(b, n);
    let e = 1nat;
    let a = 10319729009698457982551833481981775651099724702896986616832430792664384789960int;
    let q = 4865479949997601592463329489368050076362084331888670248690753398653371823765int;
    let r = 593531555194971276637645976064942777157085258535818860614861993533017863595int;
    lemma_power_square(b, n, e, a, q, r);
    let e = 2 * e;
    let a = r;
    let q = 279834468403004063660477415676426141365804257851182265515303313568901718879int;
    let r = 17633843904482950148442794751888674944439927107119285571877219352849567852857int;
    lemma_power_times(b, n, e, a, q, r);
    let e = e + 1;
    let a = r;
    let q = 14206368810341196388935457418213252447194622530171833803974818798134232466184int;
    let r = 7776446718315862595386682515845228455225321174569938139646664929684338346921int;
    lemma_power_square(b, n, e, a, q, r);
    let e = 2 * e;
    let a = r;
    let q = 3666389452148612825691118757706520037141082040008691448979500220746900158349int;
    let r = 12718638503943340033799230796901742448950212940452668611119451943645425256827int;
    lemma_power_times(b, n, e, a, q, r);
    let e = e + 1;
    let a = r;
    let q = 7390440902047475678794769724152844972337577838694943421324626527867049388672int;
    let r = 5251034926152280204410150709535741362779375399071670448064874604335068657305int;
    lemma_power_square(b, n, e, a, q, r);
    let e = 2 * e;
    let a = r;
    let q = 1259734185019762847080095988738015096622359266512229813871316902877633538404int;
    let r = 9211424055987806354980126809784369749261780513435858770919744418743694687757int;
    lemma_power_square(b, n, e, a, q, r);
    let e = 2 * e;
    let a = r;
    let q = 4342943406092776503255822236284987230372811353830806793752632597265374843471int;
    let r = 18753430469007989737718044118623765777583615261450862923426209395168863953113int;
    lemma_power_times(b, n, e, a, q, r);
    let e = e + 1;
    let a = r;
    let q = 16067582784746600495170058915579891523010690871749731652103552211689170721057int;
    let r = 8299083658399422953216871473066571686783765754016288837524968026835148283600int;
    lemma_power_square(b, n, e, a, q, r);
    let e = 2 * e;
    let a = r;
}

/// A power of the base of the certificate, as the power of a power.
proof fn lemma_node_field_order_taba()
    ensures
        power_is(
            5int,
            1989297725333025104266691424634851866631679033028813445760083994053967872nat,
            21888242871839275222246405745257275088548364400416034343698204186575808495617int,
            8299083658399422953216871473066571686783765754016288837524968026835148283600int,
        ),
{
    lemma_node_field_order_tab();
    lemma_power_field_order_taba();
    lemma_power_of_power(
        5int,
        34298236643672846625287783183359514941925500569462300788966965414723584nat,
        21888242871839275222246405745257275088548364400416034343698204186575808495617int,
        10319729009698457982551833481981775651099724702896986616832430792664384789960int,
        58nat,
        8299083658399422953216871473066571686783765754016288837524968026835148283600int,
    );
    assert(34298236643672846625287783183359514941925500569462300788966965414723584nat * 58nat
        == 1989297725333025104266691424634851866631679033028813445760083994053967872nat);
}

/// A power of a base, computed from the bits of the exponent.
proof fn lemma_power_field_order_tabb()
    ensures
        power_is(
            10319729009698457982551833481981775651099724702896986616832430792664384789960int,
            11003nat,
            21888242871839275222246405745257275088548364400416034343698204186575808495617int,
            19296088902599765892268520007990571347711491955142876404554617667379037939916int,
        ),
{
    let n = 21888242871839275222246405745257275088548364400416034343698204186575808495617int;
    let b = 10319729009698457982551833481981775651099724702896986616832430792664384789960int;
    lemma_power_one(b, n);
    let e = 1nat;
    let a = 10319729009698457982551833481981775651099724702896986616832430792664384789960int;
    let q = 4865479949997601592463329489368050076362084331888670248690753398653371823765int;
    let r = 593531555194971276637645976064942777157085258535818860614861993533017863595int;
    lemma_power_square(b, n, e, a, q, r);
    let e = 2 * e;
    let a = r;
    let q = 16094471770751101497672729291827314594046182031131781113259942938154585172int;
    let r = 2084505509138805529841590998877803794424374290898530801285748031298011132901int;
    lemma_power_square(b, n, e, a, q, r);
    let e = 2 * e;
    let a = r;
    let q = 982789349491915860089275879574106985606873642489846538919443329045474287659int;
    let r = 13154465036449490201467377838922466896057365332531143032366509556989031783357int;
    lemma_power_times(b, n, e, a, q, r);
    let e = e + 1;
    let a = r;
    let q = 7905611766479430138736907327122324749469472660161099720310875711551722144772int;
    let r = 2351438364384263138330226387345090183398566959068908585138415015577780725125int;
    lemma_power_square(b, n, e, a, q, r);
    let e = 2 * e;
    let a = r;
    let q = 252613351097813051146315482705318773239342963160418040592211967757948502760int;
    let r = 9426246178762524012323651513639518969249949648957298053053880947577633862705int;
    lemma_power_square(b, n, e, a, q, r);
    let e = 2 * e;
    let a = r;
    let q = 4444226369065352947557770230742203955733764359644406412534674403775758191535int;
    let r = 9771969729260122503780842838932448723561397681887202571191942635712008439705int;
    lemma_power_times(b, n, e, a, q, r);
    let e = e + 1;
    let a = r;
    let q = 4362679679163847987316300627395827961232315467894242734261303749224746822346int;
    let r = 13855663210104295264650577538668160205996777001319410287029825402397201829543int;
    lemma_power_square(b, n, e, a, q, r);
    let e = 2 * e;
    let a = r;
    let q = 8770891483428865153136003447018350370037373307683914606404819057170535988789int;
    let r = 1134058956716899275478392447042941688617181450484372250692680888154759951036int;
    lemma_power_square(b, n, e, a, q, r);
    let e = 2 * e;
    let a = r;
    let q = 534678876822803262996233892356046390639305756710934002573989753264880695790int;
    let r = 16579489959424521229054293106724842927953250758823005050590598053448619046130int;
    lemma_power_times(b, n, e, a, q, r);
    let e = e + 1;
    let a = r;
    let q = 12558316760470061055179705604177303416288892284605796688986494959581963545996int;
    let r = 1490632862111123737595956992603773604896196280146598918995030447699524077368int;
    lemma_power_square(b, n, e, a, q, r);
    let e = 2 * e;
    let a = r;
    let q = 702794065289233211410578283724582236150821526188711821087450460894209261619int;
    let r = 1095332966649628397554314322208914376179700278698972888303724136476701801357int;
    lemma_power_times(b, n, e, a, q, r);
    let e = e + 1;
    let a = r;
    let q = 54812728223746187924053446578852868481568538662562819002108161809258690226int;
    let r = 3741986572646665537535868545016874900189866876560655359264567163991805302007int;
    lemma_power_square(b, n, e, a, q, r);
    let e = 2 * e;
    let a = r;
    let q = 1764247939578850402527979049390235395224186140824760394627231105357216136970int;
    let r = 12850360779515218391164664649162053547599084758030617563364630635323144789230int;
    lemma_power_times(b, n, e, a, q, r);
    let e = e + 1;
    let a = r;
    let q = 7544313772950514682529609820696927308974009010343338778094980200048591562796int;
    let r = 7602133606381369738933268653612972927903037744832019766344394777257377727768int;
    lemma_power_square(b, n, e, a, q, r);
    let e = 2 * e;
    let a = r;
    let q = 3584205418988255200004578532110806721462391714895157648855212811767325789413int;
    let r = 21839895274010274040713808657550691509201610711157517723500978124498264106459int;
    lemma_power_times(b, n, e, a, q, r);
    let e = e + 1;
    let a = r;
    let q = 21791654468226185801057738968426835176225377504225427214061762446610088454078int;
    let r = 13363342561578821578875913896642426367381946834874224855290640991431316742555int;
    lemma_power_square(b, n, e, a, q, r);
    let e = 2 * e;
    let a = r;
    let q = 6300463436317617069925261943781980320287471488323350935135142630788809723489int;
    let r = 2663925862563850898278404071871142456897088323398922886029769454372230300087int;
    lemma_power_times(b, n, e, a, q, r);
    let e = e + 1;
    let a = r;
    let q = 324215198213406704767610498190227935888914825607394442502437220238917961774int;
    let r = 13580563913175124651952266778363714641937580311308057749294238449891219663011int;
    lemma_power_square(b, n, e, a, q, r);
    let e = 2 * e;
    let a = r;
    let q = 8426063128032926724086324110351488471473295781425585776705387979197084738954int;
    let r = 17597353006412274867852754366458528552064438706540913121401991082268503421503int;
    lemma_power_square(b, n, e, a, q, r);
    let e = 2 * e;
    let a = r;
    let q = 8296687649962887844421947863197663046575867607045585437585406168444961085808int;
    let r = 481722746667663033817491082776385341048051573088669914748915023600673606344int;
    lemma_power_times(b, n, e, a, q, r);
    let e = e + 1;
    let a = r;
    let q = 10601892806827104518681255298957896497279948884730884317200063937760767757int;
    let r = 5978203347650388541128522596797659345579740245625856394898721578505587625267int;
    lemma_power_square(b, n, e, a, q, r);
    let e = 2 * e;
    let a = r;
    let q = 2818565148141561782123338950809109225522478768185035002210832593920354496012int;
    let r = 19296088902599765892268520007990571347711491955142876404554617667379037939916int;
    lemma_power_times(b, n, e, a, q, r);
    let e = e + 1;
    let a = r;
}

/// A power of the base of the certificate, as the power of a power.
proof fn lemma_node_field_order_tabb()
    ensures
        power_is(
            5int,
            377383497790332331418041478366504742906006282765793695581003520458203594752nat,
            21888242871839275222246405745257275088548364400416034343698204186575808495617int,
            19296088902599765892268520007990571347711491955142876404554617667379037939916int,
        ),
{
    lemma_node_field_order_tab();
    lemma_power_field_order_tabb();
    lemma_power_of_power(
        5int,
        34298236643672846625287783183359514941925500569462300788966965414723584nat,
        21888242871839275222246405745257275088548364400416034343698204186575808495617int,
        10319729009698457982551833481981775651099724702896986616832430792664384789960int,
        11003nat,
        19296088902599765892268520007990571347711491955142876404554617667379037939916int,
    );
    assert(34298236643672846625287783183359514941925500569462300788966965414723584nat * 11003nat
        == 377383497790332331418041478366504742906006282765793695581003520458203594752nat);
}

/// A power of a base, computed from the bits of the exponent.
proof fn lemma_power_field_order_tabba()
    ensures
        power_is(
            19296088902599765892268520007990571347711491955142876404554617667379037939916int,
            2nat,
            21888242871839275222246405745257275088548364400416034343698204186575808495617int,
            18357710930920482893114740859477755941065533295300174657912055312005893977631int,
        ),
{
    let n = 21888242871839275222246405745257275088548364400416034343698204186575808495617int;
    let b = 19296088902599765892268520007990571347711491955142876404554617667379037939916int;
    lemma_power_one(b, n);
    let e = 1nat;
    let a = 19296088902599765892268520007990571347711491955142876404554617667379037939916int;
    let q = 17010915362972033872754444940385878426093727981850953525123119575654231207025int;
    let r = 18357710930920482893114740859477755941065533295300174657912055312005893977631int;
    lemma_power_square(b, n, e, a, q, r);
    let e = 2 * e;
    let a = r;
}

/// A power of the base of the certificate, as the power of a power.
proof fn lemma_node_field_order_tabba()
    ensures
        power_is(
            5int,
            754766995580664662836082956733009485812012565531587391162007040916407189504nat,
            21888242871839275222246405745257275088548364400416034343698204186575808495617int,
            18357710930920482893114740859477755941065533295300174657912055312005893977631int,
        ),
{
    lemma_node_field_order_tabb();
    lemma_power_field_order_tabba();
    lemma_power_of_power(
        5int,
        377383497790332331418041478366504742906006282765793695581003520458203594752nat,
        21888242871839275222246405745257275088548364400416034343698204186575808495617int,
        19296088902599765892268520007990571347711491955142876404554617667379037939916int,
        2nat,
        18357710930920482893114740859477755941065533295300174657912055312005893977631int,
    );
    assert(377383497790332331418041478366504742906006282765793695581003520458203594752nat * 2nat
        == 754766995580664662836082956733009485812012565531587391162007040916407189504nat);
}

/// A power of a base, computed from the bits of the exponent.
proof fn lemma_power_field_order_tabbb()
    ensures
        power_is(
            19296088902599765892268520007990571347711491955142876404554617667379037939916int,
            29nat,
            21888242871839275222246405745257275088548364400416034343698204186575808495617int,
            21888242871839275222246405745257275088548364400416034343698204186575808495616int,
        ),
{
    let n = 21888242871839275222246405745257275088548364400416034343698204186575808495617int;
    let b = 19296088902599765892268520007990571347711491955142876404554617667379037939916int;
    lemma_power_one(b, n);
    let e = 1nat;
    let a = 19296088902599765892268520007990571347711491955142876404554617667379037939916int;
    let q = 17010915362972033872754444940385878426093727981850953525123119575654231207025int;
    let r = 18357710930920482893114740859477755941065533295300174657912055312005893977631int;
    lemma_power_square(b, n, e, a, q, r);
    let e = 2 * e;
    let a = r;
    let q = 16183666466302460702649957733946531804611467887932844374959809839795095211277int;
    let r = 6727584625609346255388479285138456344017603399428688929250723145475082546087int;
    lemma_power_times(b, n, e, a, q, r);
    let e = e + 1;
    let a = r;
    let q = 2067794804715267848929637662645708419979584968927602580989790409826035684724int;
    let r = 649109340762266377713565014318250565076315502102005141047035862621531156861int;
    lemma_power_square(b, n, e, a, q, r);
    let e = 2 * e;
    let a = r;
    let q = 572237416232768437541982525906408377533403398523443791924125640919370292052int;
    let r = 5455574775255495239569146901602456404578411627757279319668545835777637227592int;
    lemma_power_times(b, n, e, a, q, r);
    let e = e + 1;
    let a = r;
    let q = 1359784625137569538705971444155296042096083689694957914871680590443141343759int;
    let r = 8258745389595227346475761640014939697133898081799875677074716677406364314161int;
    lemma_power_square(b, n, e, a, q, r);
    let e = 2 * e;
    let a = r;
    let q = 3116142113806368804635732996845406319099182009716494296489061218092979956707int;
    let r = 5832445515377664489859215490425268365207588544917999195457375815548445880702int;
    lemma_power_square(b, n, e, a, q, r);
    let e = 2 * e;
    let a = r;
    let q = 5141727814483066882260706732285256225581128797852541955136113721400985657448int;
    let r = 21888242871839275222246405745257275088548364400416034343698204186575808495616int;
    lemma_power_times(b, n, e, a, q, r);
    let e = e + 1;
    let a = r;
}

/// A power of the base of the certificate, as the power of a power.
proof fn lemma_node_field_order_tabbb()
    ensures
        power_is(
            5int,
            10944121435919637611123202872628637544274182200208017171849102093287904247808nat,
            21888242871839275222246405745257275088548364400416034343698204186575808495617int,
            21888242871839275222246405745257275088548364400416034343698204186575808495616int,
        ),
{
    lemma_node_field_order_tabb();
    lemma_power_field_order_tabbb();
    lemma_power_of_power(
        5int,
        377383497790332331418041478366504742906006282765793695581003520458203594752nat,
        21888242871839275222246405745257275088548364400416034343698204186575808495617int,
        19296088902599765892268520007990571347711491955142876404554617667379037939916int,
        29nat,
        21888242871839275222246405745257275088548364400416034343698204186575808495616int,
    );
    assert(377383497790332331418041478366504742906006282765793695581003520458203594752nat * 29nat
        == 10944121435919637611123202872628637544274182200208017171849102093287904247808nat);
}

/// The power of a base with the leading bits of an exponent.
proof fn lemma_power_field_order_tb_part_1()
    ensures
        power_is(
            19887383362718182203517009867385956224532393031860387934578001712995117994586int,
            7123544nat,
            21888242871839275222246405745257275088548364400416034343698204186575808495617int,
            3188500436790874163717755891688329465553020540999079862258366637376057726543int,
        ),
{
    let n = 21888242871839275222246405745257275088548364400416034343698204186575808495617int;
    let b = 19887383362718182203517009867385956224532393031860387934578001712995117994586int;
    lemma_power_one(b, n);
    let e = 1nat;
    let a = 19887383362718182203517009867385956224532393031860387934578001712995117994586int;
    let q = 18069427469875534254304101350584584051179285339172490063377446322153165794722int;
    let r = 11368207234942670888835120453873516417666490693300823184588242808005266577922int;
    lemma_power_square(b, n, e, a, q, r);
    let e = 2 * e;
    let a = r;
    let q = 10329010727444173716772408769267370805573917567129464066010532119971002680354int;
    let r = 17404373247389578845494483060509253949580108100209115118592129530360082121874int;
    lemma_power_times(b, n, e, a, q, r);
    let e = e + 1;
    let a = r;
    let q = 13839037236020776847010379851017174922951941465817947726907945057580676481234int;
    let r = 15992476177350765221967367463173600149218886479408231745218801140759517520498int;
    lemma_power_square(b, n, e, a, q, r);
    let e = 2 * e;
    let a = r;
    let q = 11684779622588326049762673446272059969083119291307198157956853297863405967726int;
    let r = 14954793109126109176023984600476222818820061165860064527171307715381735711062int;
    lemma_power_square(b, n, e, a, q, r);
    let e = 2 * e;
    let a = r;
    let q = 13587737737229133318221451014957715126175552193791307961769353731804002895351int;
    let r = 11451080585629873984587606779072036533982654734481827115579510431106583133765int;
    lemma_power_times(b, n, e, a, q, r);
    let e = e + 1;
    let a = r;
    let q = 5990761677233288037885048439155238318428721142129512042073699334852317269068int;
    let r = 12132719357031602943959095645731850799285183392330278101679307616732995400269int;
    lemma_power_square(b, n, e, a, q, r);
    let e = 2 * e;
    let a = r;
    let q = 11023636867443240274546461807241647641450218647516528836145154535031109354295int;
    let r = 19994035268828624752664486157228151725354517731622666108166457799229437318619int;
    lemma_power_times(b, n, e, a, q, r);
    let e = e + 1;
    let a = r;
    let q = 18263752310857416477099975827230373771554792961839942293656072595898226647410int;
    let r = 13633410501973155347897376930699989851762920982669111819096493393822934665191int;
    lemma_power_square(b, n, e, a, q, r);
    let e = 2 * e;
    let a = r;
    let q = 8491768069443631181574740017867037412997123608960151309800552339570117456496int;
    let r = 7430368179909557106534101931291990035934368820637908929699463930071062888449int;
    lemma_power_square(b, n, e, a, q, r);
    let e = 2 * e;
    let a = r;
    let q = 2522375670458426402352166204167329426239106949708267975093475479919035733897int;
    let r = 18113774809540063965553271169124030909732979276289020504703671516217914796152int;
    lemma_power_square(b, n, e, a, q, r);
    let e = 2 * e;
    let a = r;
    let q = 16457948949695662801073203042083929636952756461015369206843711461933592649070int;
    let r = 18930060667644293449835640894986964382934838599607076281743607300308715506882int;
    lemma_power_times(b, n, e, a, q, r);
    let e = e + 1;
    let a = r;
    let q = 16371674920590896067975610560960352113035461016854093079310306653813438540230int;
    let r = 9702726269257011170004057539117836244176941040103627873039476581685356190014int;
    lemma_power_square(b, n, e, a, q, r);
    let e = 2 * e;
    let a = r;
    let q = 4301071475100057870888075880042615491872833354032798642040435116825773242764int;
    let r = 17429557480869777517241047826361994359528839959592329471426086145795502354808int;
    lemma_power_square(b, n, e, a, q, r);
    let e = 2 * e;
    let a = r;
    let q = 15836277653449784276007262807901465391547438701921841741749921896244142208899int;
    let r = 6803546592883012287773183305094553518390571796824749888798011202233055173805int;
    lemma_power_times(b, n, e, a, q, r);
    let e = e + 1;
    let a = r;
    let q = 2114753866381985670992340704724477009157178574159857551499297027334876146103int;
    let r = 2430072985671392502551128765183029317024516863706762022811293534691631047474int;
    lemma_power_square(b, n, e, a, q, r);
    let e = 2 * e;
    let a = r;
    let q = 2207933882514122192015725242452322324287337508528121825096805644739164754493int;
    let r = 19308926456459881401793982426119518505284187577162807864081468024017969418583int;
    lemma_power_times(b, n, e, a, q, r);
    let e = e + 1;
    let a = r;
    let q = 17033557379823013277457981701166547154860500185283483087641927845344255167738int;
    let r = 4378341990428874123068825225893100365591138196518883570953123111615292923543int;
    lemma_power_square(b, n, e, a, q, r);
    let e = 2 * e;
    let a = r;
    let q = 875807103265289424239380128633971522593916406973161021117343999156900737036int;
    let r = 5279426040118734977027125642945321798725456351677900011526023875194368101637int;
    lemma_power_square(b, n, e, a, q, r);
    let e = 2 * e;
    let a = r;
    let q = 1273393185386455195391706875466352154230080898401222342276908712333686786458int;
    let r = 279615933679035778782716603932922172732171280561850752791610674319054125183int;
    lemma_power_square(b, n, e, a, q, r);
    let e = 2 * e;
    let a = r;
    let q = 254055535657170306733964672702796477465703351338706875943910236458536469485int;
    let r = 1427332260057935422215597073001252779741830335160213980919730974809283511993int;
    lemma_power_times(b, n, e, a, q, r);
    let e = e + 1;
    let a = r;
    let q = 93076332921323291280424919726640377985124231538819907525758802788139434920int;
    let r = 10588310211973917326250755093815364867828805322928311307212816836006498086409int;
    lemma_power_square(b, n, e, a, q, r);
    let e = 2 * e;
    let a = r;
    let q = 5122033495399090149385124945719661778620999241786836616088966322849222661651int;
    let r = 12204447212088412199687904321800695261751808827893687409101083965851923031614int;
    lemma_power_square(b, n, e, a, q, r);
    let e = 2 * e;
    let a = r;
    let q = 6804956095598021379999215751714768633260589350129033285181921180206948513803int;
    let r = 3061670867405105593055923186745524737911902796903529804934230993309053943545int;
    lemma_power_square(b, n, e, a, q, r);
    let e = 2 * e;
    let a = r;
    let q = 2781795808236787648169562991403428757700796887584696988896032469665796830246int;
    let r = 518706191675755623421470269005133884534289200691907925617624117878875615588int;
    lemma_power_times(b, n, e, a, q, r);
    let e = e + 1;
    let a = r;
    let q = 12292266439939994658510267886171895247469474375355100315044338849852637900int;
    let r = 554588201933101108762537866195627890220702106153971162453934395847910501444int;
    lemma_power_square(b, n, e, a, q, r);
    let e = 2 * e;
    let a = r;
    let q = 14051748033146029341527721456047137747795942355302772415091360494151665434int;
    let r = 8734869371750631251949806516508812775809076592953419208568148294828886682358int;
    lemma_power_square(b, n, e, a, q, r);
    let e = 2 * e;
    let a = r;
    let q = 7936392922739572728848027939412463024949003843324208526045668865805419520481int;
    let r = 1351394949173302334143986721427371368909406577732516367601185667405615482011int;
    lemma_power_times(b, n, e, a, q, r);
    let e = e + 1;
    let a = r;
    let q = 83436040039592751374064021473433120684952062538449052784866668230758797048int;
    let r = 17384001100561701813163453073754245051859399714861739338024679058418364065505int;
    lemma_power_square(b, n, e, a, q, r);
    let e = 2 * e;
    let a = r;
    let q = 15794885696813095340507482942069424587860662806206023713515224529169486911679int;
    let r = 31574927307997663040706104366390545526208579919973890173853092525201744987int;
    lemma_power_times(b, n, e, a, q, r);
    let e = e + 1;
    let a = r;
    let q = 45548472773390803061803026119718415890592401644826692184635155841253174int;
    let r = 14781913408125084419690724360075825168418121046322736615548223841200813291811int;
    lemma_power_square(b, n, e, a, q, r);
    let e = 2 * e;
    let a = r;
    let q = 9982754910236753729376677823905526618943270287925421152392097526785632537169int;
    let r = 20930668952690955805868881225288719729883004552605333997508687958921113571448int;
    lemma_power_square(b, n, e, a, q, r);
    let e = 2 * e;
    let a = r;
    let q = 20014987286657791118559476627354082934195974940702684371593126754477585064433int;
    let r = 3188500436790874163717755891688329465553020540999079862258366637376057726543int;
    lemma_power_square(b, n, e, a, q, r);
    let e = 2 * e;
    let a = r;
}

/// The power of a base with the leading bits of an exponent.
proof fn lemma_power_field_order_tb_part_2()
    ensures
        power_is(
            19887383362718182203517009867385956224532393031860387934578001712995117994586int,
            14939155504205nat,
            21888242871839275222246405745257275088548364400416034343698204186575808495617int,
            5230274987980754065321934079863543369258655583900065342084273498750669255650int,
        ),
{
    let n = 21888242871839275222246405745257275088548364400416034343698204186575808495617int;
    let b = 19887383362718182203517009867385956224532393031860387934578001712995117994586int;
    lemma_power_field_order_tb_part_1();
    let e = 7123544nat;
    let a = 3188500436790874163717755891688329465553020540999079862258366637376057726543int;
    let q = 464474699725464921329726407556301342399870388009470382529362502403325501204int;
    let r = 5661833226979152625342188733492313273693730115101147450890261704442004507981int;
    lemma_power_square(b, n, e, a, q, r);
    let e = 2 * e;
    let a = r;
    let q = 1464546774166503033616441956719872012173078649462286482895545605873461508226int;
    let r = 8289130385126343139353457612573639998109193189040451657381999971556962250919int;
    lemma_power_square(b, n, e, a, q, r);
    let e = 2 * e;
    let a = r;
    let q = 7531400061566983024829961213598214466178056771905607483875825724431086225437int;
    let r = 12739256961990230688111257698267208175092698345384423689842846588529927114905int;
    lemma_power_times(b, n, e, a, q, r);
    let e = e + 1;
    let a = r;
    let q = 7414421929336870491016494236278011806142769685285218161523934118024096469880int;
    let r = 7458215947324556703044421806358079592173716509819925126635504834253920643065int;
    lemma_power_square(b, n, e, a, q, r);
    let e = 2 * e;
    let a = r;
    let q = 6776441609080065649277306890454918264738207756533008442701777904894122976995int;
    let r = 9061757723366064892661812258650430984794762556908649152155002996745859115175int;
    lemma_power_times(b, n, e, a, q, r);
    let e = e + 1;
    let a = r;
    let q = 3751578119714291290921537272602516285064309343302227427831080287516391826400int;
    let r = 7538628384456758089139822818364735162436729573132825088951235102334890391825int;
    lemma_power_square(b, n, e, a, q, r);
    let e = 2 * e;
    let a = r;
    let q = 6849503342438115828190410218465334176055765093315874379787208970859209293279int;
    let r = 13961972817197342716459538843709013307168700553983488336357856323887029601307int;
    lemma_power_times(b, n, e, a, q, r);
    let e = e + 1;
    let a = r;
    let q = 8905999722753301035320953475342283217442668133826093236717997918056182074456int;
    let r = 636416808699912032340117849328260395771645536509345487168427921703732448897int;
    lemma_power_square(b, n, e, a, q, r);
    let e = 2 * e;
    let a = r;
    let q = 18504288204736369900074119833454251598751904383367573378486769508100943477int;
    let r = 12906101654676407655839967228413315567958696919015388629571639824498997276300int;
    lemma_power_square(b, n, e, a, q, r);
    let e = 2 * e;
    let a = r;
    let q = 11726322337869474559139581859854828635665801074344488900223704042216881585950int;
    let r = 11246094144389717894783232972109576608154543994921607220718957012633562330650int;
    lemma_power_times(b, n, e, a, q, r);
    let e = e + 1;
    let a = r;
    let q = 5778199476541581424732210424166628725328705353226931829606014963509895237245int;
    let r = 19858683602960099006940948773328803173410026167759220667215228197343171767335int;
    lemma_power_square(b, n, e, a, q, r);
    let e = 2 * e;
    let a = r;
    let q = 18017312616256505497612976869201475354463818770906535442774189308977305399822int;
    let r = 8636935050259043571909726278508151731406921377889280356286881927950853422051int;
    lemma_power_square(b, n, e, a, q, r);
    let e = 2 * e;
    let a = r;
    let q = 3408069231467039648136819475097331517397108394767369377675360196137100202195int;
    let r = 3099209238571831017338633751560549489992339783590681135891464403407661767286int;
    lemma_power_square(b, n, e, a, q, r);
    let e = 2 * e;
    let a = r;
    let q = 2815902702178701550008873989657152587307118619081650178714149893632072289909int;
    let r = 12684734276936373752282687543651400415148834053354259826697403692335360084743int;
    lemma_power_times(b, n, e, a, q, r);
    let e = e + 1;
    let a = r;
    let q = 7351091844996686458613416067085088017166269171059627716669646860191675756791int;
    let r = 17663809757704784533896840820463574204986007165012135054058059840756459891002int;
    lemma_power_square(b, n, e, a, q, r);
    let e = 2 * e;
    let a = r;
    let q = 16049116338596186046476316248344299100837608449378949671341273429543614745644int;
    let r = 5286737300592607671932433536282450135836409109589602931511156021164642272824int;
    lemma_power_times(b, n, e, a, q, r);
    let e = e + 1;
    let a = r;
    let q = 1276922567477368279412074852673514200604389903239849225637499509353929782367int;
    let r = 5250875577243219093274095988340847445838701632653573702961308754857965549537int;
    lemma_power_square(b, n, e, a, q, r);
    let e = 2 * e;
    let a = r;
    let q = 4770879791768093882907606007643199257680546639399608783956502494210368129937int;
    let r = 2236941855670751988218155298865934485595517389879423041444528762349329820553int;
    lemma_power_times(b, n, e, a, q, r);
    let e = e + 1;
    let a = r;
    let q = 228611720682685733814796852695800041542778188555265439315197501249048490107int;
    let r = 4498923063958726646034303714942417687607696173403963898106736856394203864790int;
    lemma_power_square(b, n, e, a, q, r);
    let e = 2 * e;
    let a = r;
    let q = 924711446868141314437073115881692034317817674780185547585278714730857595233int;
    let r = 1922973257642655366227061907631574530576230931073174271463433198000561150339int;
    lemma_power_square(b, n, e, a, q, r);
    let e = 2 * e;
    let a = r;
    let q = 168941206073983810858046532171479907798969783617507874839901030098744959491int;
    let r = 13826563735339807358455133988819111978214334419713110787979821723428643763974int;
    lemma_power_square(b, n, e, a, q, r);
    let e = 2 * e;
    let a = r;
    let q = 8734089156757857769914426215053530596137617481435837635408701901750566826986int;
    let r = 19289675802981617391465330160025785117927536928883607329991703977964441952314int;
    lemma_power_square(b, n, e, a, q, r);
    let e = 2 * e;
    let a = r;
    let q = 17526357866304519574095636196169287470339621101729277880714065105989430088130int;
    let r = 13380319111607588495060571008515157883297108204190883117966264041983293445794int;
    lemma_power_times(b, n, e, a, q, r);
    let e = e + 1;
    let a = r;
    let q = 8179411228974868269977170667497326512166756552877377335141424141107350781227int;
    let r = 19451889599037013287230980564770027674021729618395866292304189588809460908377int;
    lemma_power_square(b, n, e, a, q, r);
    let e = 2 * e;
    let a = r;
    let q = 17286723799100886657756830524955586677407000009610716245415742746816507477259int;
    let r = 1947133238635796312280226987983220962481525891217757133211626945981360100326int;
    lemma_power_square(b, n, e, a, q, r);
    let e = 2 * e;
    let a = r;
    let q = 173212983390189262842394561038863827072863635657555448827037845960283959777int;
    let r = 5047906851802969759361338058229886437063243274547795340165100520526676508867int;
    lemma_power_square(b, n, e, a, q, r);
    let e = 2 * e;
    let a = r;
    let q = 4586464949649095611524393541876202635363266497333703448799887036821044989462int;
    let r = 4218856964469355035282599633806619459685934172049125950760146963294848806008int;
    lemma_power_times(b, n, e, a, q, r);
    let e = e + 1;
    let a = r;
    let q = 813165048965666310172931719778297104433471664573785714998116511463147541839int;
    let r = 16775124455593826471220137949028586447787767613467475470567466156317061276401int;
    lemma_power_square(b, n, e, a, q, r);
    let e = 2 * e;
    let a = r;
    let q = 15241668002273493867585246079839543043348574183254336257894471967623160422156int;
    let r = 11905579992372135342264575019416069965528835626129542567826532596339571874734int;
    lemma_power_times(b, n, e, a, q, r);
    let e = e + 1;
    let a = r;
    let q = 6475752109692348449061861688215477788068317659244516641315044585652366717252int;
    let r = 9228423066745442769969866950897736503122091569865287134073518169888467286272int;
    lemma_power_square(b, n, e, a, q, r);
    let e = 2 * e;
    let a = r;
    let q = 3890846460243202947163338530525868062110878662641706809405655289071859570067int;
    let r = 15388054195840717329098678514327922358066775692707851393120251000568325761645int;
    lemma_power_square(b, n, e, a, q, r);
    let e = 2 * e;
    let a = r;
    let q = 13981393334806905299560887341948744626086002359023254078163897832211155918960int;
    let r = 5230274987980754065321934079863543369258655583900065342084273498750669255650int;
    lemma_power_times(b, n, e, a, q, r);
    let e = e + 1;
    let a = r;
}

/// The power of a base with the leading bits of an exponent.
proof fn lemma_power_field_order_tb_part_3()
    ensures
        power_is(
            19887383362718182203517009867385956224532393031860387934578001712995117994586int,
            31329679843954907702nat,
            21888242871839275222246405745257275088548364400416034343698204186575808495617int,
            11251806378124499318271380551866232209927025895708428370984275365877171190196int,
        ),
{
    let n = 21888242871839275222246405745257275088548364400416034343698204186575808495617int;
    let b = 19887383362718182203517009867385956224532393031860387934578001712995117994586int;
    lemma_power_field_order_tb_part_2();
    let e = 14939155504205nat;
    let a = 5230274987980754065321934079863543369258655583900065342084273498750669255650int;
    let q = 1249793170245390441041853254159186081189927581828593905334996361829020855901int;
    let r = 1446589474910570632454246482447054409426193895462065751550155583652509836583int;
    lemma_power_square(b, n, e, a, q, r);
    let e = 2 * e;
    let a = r;
    let q = 95604801224786342079375329472503137199356602533447061254598674140670363733int;
    let r = 9975007819371795029101924466585446271923490288640291805333883900578438857628int;
    lemma_power_square(b, n, e, a, q, r);
    let e = 2 * e;
    let a = r;
    let q = 4545855123187756126805585259419523170139418758978120198645153329376451055456int;
    let r = 14288546728426792870883724547917870986573545347777758459303776689434453850032int;
    lemma_power_square(b, n, e, a, q, r);
    let e = 2 * e;
    let a = r;
    let q = 12982394619256073532470254317203964751914811848519991763390284098688748889575int;
    let r = 19670715622359539204686967114272766232520297207829541428153083141950627433977int;
    lemma_power_times(b, n, e, a, q, r);
    let e = e + 1;
    let a = r;
    let q = 17677849033444373695174427598549562968726629300076045307228425061847818871373int;
    let r = 19003150891556240645543507312778799995667067223932942699394147847705536764388int;
    lemma_power_square(b, n, e, a, q, r);
    let e = 2 * e;
    let a = r;
    let q = 16498343239413705838091347278591914504771044002761884463178935418644161164486int;
    let r = 20493224021828549265621298776870959989211785937550464153682798815509677956682int;
    lemma_power_square(b, n, e, a, q, r);
    let e = 2 * e;
    let a = r;
    let q = 18619886705685232923773601202432787578526406947435351682652184745516500442068int;
    let r = 20085428633381414208256011177001911972939143008220573151604559466391478107696int;
    lemma_power_times(b, n, e, a, q, r);
    let e = e + 1;
    let a = r;
    let q = 18431102293080418229198421525798004891730526810323194401731203970852109632228int;
    let r = 360381507335837040028580620554378107771981564203450604983538145281154483740int;
    lemma_power_square(b, n, e, a, q, r);
    let e = 2 * e;
    let a = r;
    let q = 327438124439075965541555937248570341205628479820825376448922644076765914279int;
    let r = 269161625497805940364633852527699890985998345478143058249043020556375816497int;
    lemma_power_times(b, n, e, a, q, r);
    let e = e + 1;
    let a = r;
    let q = 3309903908907664303824322625296563993857297914322927498314669049391407775int;
    let r = 2626002921449286335015577287742432983878724213145413778160206932374870128834int;
    lemma_power_square(b, n, e, a, q, r);
    let e = 2 * e;
    let a = r;
    let q = 2385953368494008018023464419698944124959940898125632393595728433678426716543int;
    let r = 16403973199480439806983052579908191336613745605466494064163550597479817600693int;
    lemma_power_times(b, n, e, a, q, r);
    let e = e + 1;
    let a = r;
    let q = 12293829993794325992057154546782906759315202813494196895501901059245917927923int;
    let r = 18562704429274756387441941689945536796582833660776928657864781173194726666758int;
    lemma_power_square(b, n, e, a, q, r);
    let e = 2 * e;
    let a = r;
    let q = 15742423809264960390615480853302290157225894706483742678851339693194283263947int;
    let r = 12254614342521881461151051033365833207954014299389319334868307354798578610265int;
    lemma_power_square(b, n, e, a, q, r);
    let e = 2 * e;
    let a = r;
    let q = 11134389124745584221087399788492593380966946549751972004205776503677686531349int;
    let r = 1828091868919122313158514095882835946481926536205978550519927909211074427957int;
    lemma_power_times(b, n, e, a, q, r);
    let e = e + 1;
    let a = r;
    let q = 152681048943760509697816341399107149841671185016957760945212755739218870032int;
    let r = 17062728907508206036569507342214565171091629497344576443929863691550218544105int;
    lemma_power_square(b, n, e, a, q, r);
    let e = 2 * e;
    let a = r;
    let q = 15502981805557561941885065549612193153278722591773042398615045735524459609932int;
    let r = 16694723625767383284145533615023698590487433001307082116185941025972640547486int;
    lemma_power_times(b, n, e, a, q, r);
    let e = e + 1;
    let a = r;
    let q = 12733493436302283013824668086637586553934083312296674019324986938845933230162int;
    let r = 21105498307571457194692739971579788593281789180515348393585011383855191720242int;
    lemma_power_square(b, n, e, a, q, r);
    let e = 2 * e;
    let a = r;
    let q = 20350745439872351988286691584235515345600231879161763547551770751751524073775int;
    let r = 11877710213856614052888257665226722184660460656006258916211840885129120394389int;
    lemma_power_square(b, n, e, a, q, r);
    let e = 2 * e;
    let a = r;
    let q = 10791938753482522131476522502965247415107621581628530957863653447147125159196int;
    let r = 9666715986986581217913157048510294140863785096339617044184717663474693534022int;
    lemma_power_times(b, n, e, a, q, r);
    let e = e + 1;
    let a = r;
    let q = 4269205094269392575950179388694783836034878395285273066309915103848552297491int;
    let r = 9821746219455452214884865695485345106320665418026712653688889666653917899537int;
    lemma_power_square(b, n, e, a, q, r);
    let e = 2 * e;
    let a = r;
    let q = 4407238139864506364140892834434738855448485513262616129504978514144231195172int;
    let r = 3830733560705103814406878624199326282073444921116461198368477975850791253245int;
    lemma_power_square(b, n, e, a, q, r);
    let e = 2 * e;
    let a = r;
    let q = 670429312167043734407608479274517420925114427605019820605105331695710567961int;
    let r = 10910702584890336456189828824910978896615367977996475939364739852725673903088int;
    lemma_power_square(b, n, e, a, q, r);
    let e = 2 * e;
    let a = r;
    let q = 5438692890651821268281123556963705884634220629518590085480266006848640109228int;
    let r = 8633227615374590478953150640301385207983832176538073596775430850150776682068int;
    lemma_power_square(b, n, e, a, q, r);
    let e = 2 * e;
    let a = r;
    let q = 7844042495775378954219481018632674451281569445063146272525077235167558082567int;
    let r = 9232233094733168027042442734643212556315799797585605859163296097465723675009int;
    lemma_power_times(b, n, e, a, q, r);
    let e = e + 1;
    let a = r;
    let q = 3894059857365065927395269722751304363991469648851123162829360795571949885490int;
    let r = 19055093277984488468935537891642936324637805513159451220489421422576334252751int;
    lemma_power_square(b, n, e, a, q, r);
    let e = 2 * e;
    let a = r;
    let q = 17313219121813774483292718550138105243382650075868258744609289734816735217061int;
    let r = 15061679515159582737435303481367715386127254837596386693593726935477611484449int;
    lemma_power_times(b, n, e, a, q, r);
    let e = e + 1;
    let a = r;
    let q = 10364202880316229868463574050249592392613907263976769651776171423622638480725int;
    let r = 9616454664879101559756197871905875782724187729928675381590602967060667351276int;
    lemma_power_square(b, n, e, a, q, r);
    let e = 2 * e;
    let a = r;
    let q = 4224925722139715653159876748688282091418148862449283185253932740253336799452int;
    let r = 1396129681853320353383832706205191827932791443717033463549011265963828826292int;
    lemma_power_square(b, n, e, a, q, r);
    let e = 2 * e;
    let a = r;
    let q = 1268505944933971781073406768233782079784692682042367348622903989311245250509int;
    let r = 11662543038358331349869151565632778966287936376916729628634625587349596936059int;
    lemma_power_times(b, n, e, a, q, r);
    let e = e + 1;
    let a = r;
    let q = 6214062541153218104899572639123499683333266005856446982018676534907957884326int;
    let r = 10031704400073779474331118325176243372730057266591890017100097396492370452339int;
    lemma_power_square(b, n, e, a, q, r);
    let e = 2 * e;
    let a = r;
    let q = 9114680988961890944134433749922648260726067519590302977370914288333558317936int;
    let r = 11561582293372207374155405740119748949431606609480354355693330505722224550142int;
    lemma_power_times(b, n, e, a, q, r);
    let e = e + 1;
    let a = r;
    let q = 6106939963572571911210315841661981091952416305431897065578818351708393767504int;
    let r = 11251806378124499318271380551866232209927025895708428370984275365877171190196int;
    lemma_power_square(b, n, e, a, q, r);
    let e = 2 * e;
    let a = r;
}

/// The power of a base with the leading bits of an exponent.
proof fn lemma_power_field_order_tb_part_4()
    ensures
        power_is(
            19887383362718182203517009867385956224532393031860387934578001712995117994586int,
            16425775186027430649649082nat,
            21888242871839275222246405745257275088548364400416034343698204186575808495617int,
            16682389584391458886362560706763548863754893036658808357893266555506828635300int,
        ),
{
    let n = 21888242871839275222246405745257275088548364400416034343698204186575808495617int;
    let b = 19887383362718182203517009867385956224532393031860387934578001712995117994586int;
    lemma_power_field_order_tb_part_3();
    let e = 31329679843954907702nat;
    let a = 11251806378124499318271380551866232209927025895708428370984275365877171190196int;
    let q = 5784070814276589996479837087177121247567756073234045058599186655615614445268int;
    let r = 20586430922005242764712669210691985845150999911529204482740029397006142128060int;
    lemma_power_square(b, n, e, a, q, r);
    let e = 2 * e;
    let a = r;
    let q = 18704573327938010708534625965606547989680835552555300508255752962813920775464int;
    let r = 21779245068519609722592019218760574723475942817065969652637068390209713541872int;
    lemma_power_times(b, n, e, a, q, r);
    let e = e + 1;
    let a = r;
    let q = 21670790046143945789559285735796270296250928044272190884705173012807735761534int;
    let r = 13963905126681591990413008122273239372127116551621322965698638371554701067906int;
    lemma_power_square(b, n, e, a, q, r);
    let e = 2 * e;
    let a = r;
    let q = 8908465038910605282391286919087500763121348331203430335737116126181089682655int;
    let r = 8315096733583379262938056064033363819152870194806564292813125674721334801701int;
    lemma_power_square(b, n, e, a, q, r);
    let e = 2 * e;
    let a = r;
    let q = 7554992760593517980242581829995657668513491207653650495151154758349696831640int;
    let r = 19601759761809078054989511762705247520536464196383261301766007095129374668906int;
    lemma_power_times(b, n, e, a, q, r);
    let e = e + 1;
    let a = r;
    let q = 17554126569657832675424291602611519913122867614144092030141784793899051922424int;
    let r = 18139019927746234657681740772971100116985886758896824533118027017001895221228int;
    lemma_power_square(b, n, e, a, q, r);
    let e = 2 * e;
    let a = r;
    let q = 16480886347948365244461255242172683828259939943412890435267613474355484783703int;
    let r = 10362435271885503289573217175506003968142460637646519230086958310945107741857int;
    lemma_power_times(b, n, e, a, q, r);
    let e = e + 1;
    let a = r;
    let q = 4905833026102273295604936994893409123337884447657762885606595148635472353010int;
    let r = 11052179488206274911480030699546568405760333428690042694617061289154488051279int;
    lemma_power_square(b, n, e, a, q, r);
    let e = 2 * e;
    let a = r;
    let q = 10041871874435156950241287772590727074849595739808971017052318983546980748363int;
    let r = 12883648836484245128671500421900482326558472622629276618015003902897746950523int;
    lemma_power_times(b, n, e, a, q, r);
    let e = e + 1;
    let a = r;
    let q = 7583450545287822392746051444470174324320445260804802449182924073223598024714int;
    let r = 11933762990293605889723487607379856742860822898248552580181285586844683294991int;
    lemma_power_square(b, n, e, a, q, r);
    let e = 2 * e;
    let a = r;
    let q = 6506447317053835256801216071109263934920586585403141765534244226766961026416int;
    let r = 9418590845871819352557202358617238185524224255183314164939458653385568471409int;
    lemma_power_square(b, n, e, a, q, r);
    let e = 2 * e;
    let a = r;
    let q = 8557613691751821469058533122979231063838941924829193841957154174158346283232int;
    let r = 7392268574040778673207572456145418757265501268085240472362629265752245197530int;
    lemma_power_times(b, n, e, a, q, r);
    let e = e + 1;
    let a = r;
    let q = 2496574758911152340952350444598806485443488768341831482274498080448345948654int;
    let r = 3286154939806654011952264446361911851464719832406876450960080892512252051382int;
    lemma_power_square(b, n, e, a, q, r);
    let e = 2 * e;
    let a = r;
    let q = 493361406470369927963034312291164537504989261573586488274093554843209235331int;
    let r = 13393408238823181774215866924748779093075312222215930018175659962763133065697int;
    lemma_power_square(b, n, e, a, q, r);
    let e = 2 * e;
    let a = r;
    let q = 12169082997592053047384342126858344964371836499214133216368169462138003001085int;
    let r = 19708596388471832562070269881356050986786685753822849285661794625279759571997int;
    lemma_power_times(b, n, e, a, q, r);
    let e = e + 1;
    let a = r;
    let q = 17746000621339285347784601360948936777724103406789067542540579990457429079030int;
    let r = 11867283062412585710506070844348309833728722429399651901280377116210524956499int;
    lemma_power_square(b, n, e, a, q, r);
    let e = 2 * e;
    let a = r;
    let q = 10782464774261681784966266035093730801543007677243779880389144274271768306618int;
    let r = 18476147059723865184636424904036127891065018706443501555155742989499602421108int;
    lemma_power_times(b, n, e, a, q, r);
    let e = e + 1;
    let a = r;
    let q = 15595953141206056916621431321666969020746161683153128854293180176823081822375int;
    let r = 3159641387595730214617050777756986805796730006366311972637546547527803917289int;
    lemma_power_square(b, n, e, a, q, r);
    let e = 2 * e;
    let a = r;
    let q = 2870810595978502392665436122004115283616947208478296345143975044777907037414int;
    let r = 882258891865181385198645051806045743881043921522931494174290922032019782916int;
    lemma_power_times(b, n, e, a, q, r);
    let e = e + 1;
    let a = r;
    let q = 35561591528053538380065638133950383118430840138698090518110810819235651937int;
    let r = 11354339468382424943758200182030552318530591542595940017783667252331563402927int;
    lemma_power_square(b, n, e, a, q, r);
    let e = 2 * e;
    let a = r;
    let q = 10316410648416216560851909848577518991553039893478067744314565434508494795594int;
    let r = 6507626446291824374169959695475796130547446873387322620868534752771062641724int;
    lemma_power_times(b, n, e, a, q, r);
    let e = e + 1;
    let a = r;
    let q = 1934792217559039884685147419105174771887512408622287036602301189987745909265int;
    let r = 2700111834188268578130389051477348723171960410253465191603924389668153500671int;
    lemma_power_square(b, n, e, a, q, r);
    let e = 2 * e;
    let a = r;
    let q = 333083105839591978361314691499050813232540367550437678114140737007139814295int;
    let r = 21235038235423552173307999680294486726813737860148670266590176169723296005226int;
    lemma_power_square(b, n, e, a, q, r);
    let e = 2 * e;
    let a = r;
    let q = 19293889810276947260375227261534481374377130797868057664919228203560502563952int;
    let r = 13476085389243700503672941861553632922588161344565641070972510696889641508052int;
    lemma_power_times(b, n, e, a, q, r);
    let e = e + 1;
    let a = r;
    let q = 8296914397447346573709357021020671202480512849931787943578426210806677713507int;
    let r = 13420085892123254358541209450071966179861618514750513118211318698809789635885int;
    lemma_power_square(b, n, e, a, q, r);
    let e = 2 * e;
    let a = r;
    let q = 12193321979291164884966223244075126007472796608490999263087445111901566477739int;
    let r = 342087773828125682382802404469446907442484051992708621760611459797231748647int;
    lemma_power_times(b, n, e, a, q, r);
    let e = e + 1;
    let a = r;
    let q = 5346433959449633385654958534481606858211811596190629107777983637122416910int;
    let r = 8384228067043281488947206320757511912316414304135091885886066820939204647139int;
    lemma_power_square(b, n, e, a, q, r);
    let e = 2 * e;
    let a = r;
    let q = 7617804624430327371980625975694486968507785295868288389293231381867828173785int;
    let r = 12737728292472725492960618563501368120985121805306487528480927166624155589109int;
    lemma_power_times(b, n, e, a, q, r);
    let e = e + 1;
    let a = r;
    let q = 7412642622930939962133526006905434942740402098082433535700143794940814274063int;
    let r = 17543585378720340642548620219551971031588565603626223336288439184786867132010int;
    lemma_power_square(b, n, e, a, q, r);
    let e = 2 * e;
    let a = r;
    let q = 14061310893823588923508499957571600942191667543549748498010893225347060291918int;
    let r = 12422774412977929737471643435561968770335503268411770834891914966942323116694int;
    lemma_power_square(b, n, e, a, q, r);
    let e = 2 * e;
    let a = r;
    let q = 11287177258861354491840898206998263188657248344093444897787022145564162649200int;
    let r = 15724837828487130790260278757806139285777978514032351911337208356409229662284int;
    lemma_power_times(b, n, e, a, q, r);
    let e = e + 1;
    let a = r;
    let q = 11296956369684217187344062925660045685890323131380636609313418421143980108268int;
    let r = 16682389584391458886362560706763548863754893036658808357893266555506828635300int;
    lemma_power_square(b, n, e, a, q, r);
    let e = 2 * e;
    let a = r;
}

/// The power of a base with the leading bits of an exponent.
proof fn lemma_power_field_order_tb_part_5()
    ensures
        power_is(
            19887383362718182203517009867385956224532393031860387934578001712995117994586int,
            68894694565855596483545745003938nat,
            21888242871839275222246405745257275088548364400416034343698204186575808495617int,
            11394894164584626681634103170949286243112306577304277760618013465286413847309int,
        ),
{
    let n = 21888242871839275222246405745257275088548364400416034343698204186575808495617int;
    let b = 19887383362718182203517009867385956224532393031860387934578001712995117994586int;
    lemma_power_field_order_tb_part_4();
    let e = 16425775186027430649649082nat;
    let a = 16682389584391458886362560706763548863754893036658808357893266555506828635300int;
    let q = 12714685407820807249829667917038992060338431983813698614769426107844598638075int;
    let r = 13162803067051238040545054008899377921792134220090886713134122400927599272725int;
    lemma_power_square(b, n, e, a, q, r);
    let e = 2 * e;
    let a = r;
    let q = 7915636974445470597433780218694086681396611891547943790525355163863848567315int;
    let r = 13992776289016298993184612754172761036266863035991650289202545612398021967270int;
    lemma_power_square(b, n, e, a, q, r);
    let e = 2 * e;
    let a = r;
    let q = 12713661301997252949690373531506182179145008443242878328599065998208805523403int;
    let r = 685383390083754355719867228207754481858124909065834342576554711695212775569int;
    lemma_power_times(b, n, e, a, q, r);
    let e = e + 1;
    let a = r;
    let q = 21461311177566741364575028334463418685171793453038574462880175700098769262int;
    let r = 6525356225313575790773372179613287363832646384917030525723071613287341949107int;
    lemma_power_square(b, n, e, a, q, r);
    let e = 2 * e;
    let a = r;
    let q = 5928856948040887918291197477725977066923910537130916570968460855221432260943int;
    let r = 18860304534216629200783389257758648398068793792223592103973245570130497747871int;
    lemma_power_times(b, n, e, a, q, r);
    let e = e + 1;
    let a = r;
    let q = 16251239955905233409438734287391422380011998974804312444747683050104857493454int;
    let r = 346362872905857167923636951326719808282364052703193651626599285485919841523int;
    lemma_power_square(b, n, e, a, q, r);
    let e = 2 * e;
    let a = r;
    let q = 5480898600679593264963464735836082555048100866384050353310637269367018147int;
    let r = 19431290443108749421169616477431236647058563390305957270237155636676225997830int;
    lemma_power_square(b, n, e, a, q, r);
    let e = 2 * e;
    let a = r;
    let q = 17655027154856917200717758352887443358971120874467449646089078759612568537188int;
    let r = 3311023797564452648112925297162502029743632950840734952160594371977788243384int;
    lemma_power_times(b, n, e, a, q, r);
    let e = e + 1;
    let a = r;
    let q = 500856951022899342023585287989369229000035435599969699437583963710832652612int;
    let r = 19159749234183900770281892666593767547393520600468354278325927489011134169852int;
    lemma_power_square(b, n, e, a, q, r);
    let e = 2 * e;
    let a = r;
    let q = 17408308212990085064494780219461584472931019849514363605634161035871072604028int;
    let r = 18288508210125552663970622924453429205201574888825037782254423450956725875996int;
    lemma_power_times(b, n, e, a, q, r);
    let e = e + 1;
    let a = r;
    let q = 15280784963426540085350309162280770654684161558674740670946137158678247416294int;
    let r = 20334381395529711870296125509593599503441466216502443391653546597948295608618int;
    lemma_power_square(b, n, e, a, q, r);
    let e = 2 * e;
    let a = r;
    let q = 18890829618436129751356915260660931780691229912214927868692978938156923941387int;
    let r = 13322573658247380679652168651651739789728893665481844168513607871844281469145int;
    lemma_power_square(b, n, e, a, q, r);
    let e = 2 * e;
    let a = r;
    let q = 8108963790226455004566047874724245777453111315127405207580857654042411895315int;
    let r = 4732999505681860349151043472143056027242571195174390666534658986043746696670int;
    lemma_power_square(b, n, e, a, q, r);
    let e = 2 * e;
    let a = r;
    let q = 1023439133600144860580985046580856944859269767918840462476198750598269258283int;
    let r = 11497313253054577557948997596200823648108174100494534598787153735704342643289int;
    lemma_power_square(b, n, e, a, q, r);
    let e = 2 * e;
    let a = r;
    let q = 10446314838681393849314771249010528240115772889525542340280120395792297156833int;
    let r = 9203838939283434735155484849864487791163202206614377266130682558515989132393int;
    lemma_power_times(b, n, e, a, q, r);
    let e = e + 1;
    let a = r;
    let q = 3870143972555059697672842368631689636773535052622151274651129702414491654802int;
    let r = 15244157300755564589382234508959378355745387380600452797223853832340387903615int;
    lemma_power_square(b, n, e, a, q, r);
    let e = 2 * e;
    let a = r;
    let q = 10616856417888050415017486512963327780670281718510958286952229284028796218571int;
    let r = 21080270272224538236317450765566176524531320280903427425875436558588702564918int;
    lemma_power_square(b, n, e, a, q, r);
    let e = 2 * e;
    let a = r;
    let q = 19153269577103008143190498769387969311860165076486913557198415727558627427466int;
    let r = 15376390215986817553073692884247865454663469535905343042995770558242391117426int;
    lemma_power_times(b, n, e, a, q, r);
    let e = e + 1;
    let a = r;
    let q = 10801843595151389440013828369242536236019883395640044882794664255014489751613int;
    let r = 18772615433009486423797666440323844127170035078240748466022296791879391685255int;
    lemma_power_square(b, n, e, a, q, r);
    let e = 2 * e;
    let a = r;
    let q = 16100474225323357084602837650814183463462757303381795021048695874997597681492int;
    let r = 5271934514975836277918548511123258276241516967491702260137439524713340394461int;
    lemma_power_square(b, n, e, a, q, r);
    let e = 2 * e;
    let a = r;
    let q = 4790013678866861106723223454654369484788648780562236381342941332674513096679int;
    let r = 18194816012708401808743017032410597122260454974462557941504585478517433632203int;
    lemma_power_times(b, n, e, a, q, r);
    let e = e + 1;
    let a = r;
    let q = 15124618804473806931803545000855055825500311045769456039255874909725116909832int;
    let r = 15449523043535245722558480293005772688907221391673701532549252200977722426865int;
    lemma_power_square(b, n, e, a, q, r);
    let e = 2 * e;
    let a = r;
    let q = 14037243160036064896477548105693797704888956113131863415133859112990001682995int;
    let r = 1336825697262958940172641883185956257242352127929122980109653846006770019975int;
    lemma_power_times(b, n, e, a, q, r);
    let e = e + 1;
    let a = r;
    let q = 81646706650985985770237144337893399685988315373473535731904065491867992261int;
    let r = 3528071205548735862233391217118294457491839064315308794672424553501290580588int;
    lemma_power_square(b, n, e, a, q, r);
    let e = 2 * e;
    let a = r;
    let q = 568674539308790181795941149929755360685189734584281121355533212022590469102int;
    let r = 12079302713818147276032498049481106398223972182680227454957223709349181499810int;
    lemma_power_square(b, n, e, a, q, r);
    let e = 2 * e;
    let a = r;
    let q = 10975103174366292772261414559214460027693164466805212047686762062184223471707int;
    let r = 9683985886623119890886440793819445269743397811719214812231020174510307020441int;
    lemma_power_times(b, n, e, a, q, r);
    let e = e + 1;
    let a = r;
    let q = 4284472865246284096637220370661463772488434015203482596680332980352009996943int;
    let r = 192795447244771427828448390091513075712113973295215260245309739477592935650int;
    lemma_power_square(b, n, e, a, q, r);
    let e = 2 * e;
    let a = r;
    let q = 1698175805885876030539345501682231249999882911257981177639974517093674222int;
    let r = 7631544603659904812070459609362420337912918438665242206134984985948128037526int;
    lemma_power_square(b, n, e, a, q, r);
    let e = 2 * e;
    let a = r;
    let q = 2660810800513410524262225760465240474890174454782800155227968095096209586155int;
    let r = 2978690593374152105323629647537336705494534610423054985229588250059362818041int;
    lemma_power_square(b, n, e, a, q, r);
    let e = 2 * e;
    let a = r;
    let q = 405359064361939414047783283524698181364085844007525499432949181453317638412int;
    let r = 11432293701474709149422573070816624061827676038825503014588000946103982237477int;
    lemma_power_square(b, n, e, a, q, r);
    let e = 2 * e;
    let a = r;
    let q = 10387238888368155445675779069400080462126294004827031755547726816015363702893int;
    let r = 20703407283442338768806141018106669994554003014825566557713208390752571579541int;
    lemma_power_times(b, n, e, a, q, r);
    let e = e + 1;
    let a = r;
    let q = 19582708198818304298628071707830514824893800791899231100461270854554337305516int;
    let r = 11394894164584626681634103170949286243112306577304277760618013465286413847309int;
    lemma_power_square(b, n, e, a, q, r);
    let e = 2 * e;
    let a = r;
}

/// A power of a base, computed from the bits of the exponent.
proof fn lemma_power_field_order_tb()
    ensures
        power_is(
            19887383362718182203517009867385956224532393031860387934578001712995117994586int,
            8818520904429516349893855360504094nat,
            21888242871839275222246405745257275088548364400416034343698204186575808495617int,
            16160323223625149218691898021878502538467640817267864944299671648961520112051int,
        ),
{
    let n = 21888242871839275222246405745257275088548364400416034343698204186575808495617int;
    let b = 19887383362718182203517009867385956224532393031860387934578001712995117994586int;
    lemma_power_field_order_tb_part_5();
    let e = 68894694565855596483545745003938nat;
    let a = 11394894164584626681634103170949286243112306577304277760618013465286413847309int;
    let q = 5932116789015416375274169278053198290317423168756806219606106274381690182651int;
    let r = 3925079683732920330047998062015054224138465501750134427086495292292903600814int;
    lemma_power_square(b, n, e, a, q, r);
    let e = 2 * e;
    let a = r;
    let q = 703859629750093791153935546924257751041761453869918117319717164181994688192int;
    let r = 753552447320162880074902686935343866625613098322288701322325227686547808132int;
    lemma_power_square(b, n, e, a, q, r);
    let e = 2 * e;
    let a = r;
    let q = 25942753568070719634971237293137059538035314210386502221235063458768183272int;
    let r = 8948107729124292261063111209309236364547815795814233678296171869059020610600int;
    lemma_power_square(b, n, e, a, q, r);
    let e = 2 * e;
    let a = r;
    let q = 8130138623824711880340747766190146996748237630985163834836777743497740527318int;
    let r = 6474384651274091160342491050904036229882748007761017052388490271923342446394int;
    lemma_power_times(b, n, e, a, q, r);
    let e = e + 1;
    let a = r;
    let q = 1915076365795605889845920822493344027171605067132932376002347986175188116627int;
    let r = 6435661865447203515691808139000652100205499615319197472685154991888349279377int;
    lemma_power_square(b, n, e, a, q, r);
    let e = 2 * e;
    let a = r;
    let q = 5847361775925856586451668257058698538775281127525525001241741134283095580517int;
    let r = 6206376798277776037054963116586575177755693158180623389027631362243422358933int;
    lemma_power_times(b, n, e, a, q, r);
    let e = e + 1;
    let a = r;
    let q = 1759808367795396560314474418585080495714715285817807413720614517646205749409int;
    let r = 7635021411000189595847215727777797178516723710088749882135099831253908058136int;
    lemma_power_square(b, n, e, a, q, r);
    let e = 2 * e;
    let a = r;
    let q = 6937084839207244349659119628922544664377286534572899032548354371384137751696int;
    let r = 3044358020597338214415599794113977225400896717030570957017649142751370935264int;
    lemma_power_times(b, n, e, a, q, r);
    let e = e + 1;
    let a = r;
    let q = 423428952787224842527103630286321404402249642021682542792798092504952579683int;
    let r = 8056334418934609720349760022732489880394567686851859000379468268306530000285int;
    lemma_power_square(b, n, e, a, q, r);
    let e = 2 * e;
    let a = r;
    let q = 7319884562033404046336573475657559707213403048494012321582504735576947586412int;
    let r = 21758109465873098822520354602170284054064585418047568509511115223302377700806int;
    lemma_power_times(b, n, e, a, q, r);
    let e = e + 1;
    let a = r;
    let q = 21628749749391615839278153532954314237190142481633473832300222745985477403505int;
    let r = 16160323223625149218691898021878502538467640817267864944299671648961520112051int;
    lemma_power_square(b, n, e, a, q, r);
    let e = 2 * e;
    let a = r;
}

/// A power of the base of the certificate, as the power of a power.
proof fn lemma_node_field_order_tb()
    ensures
        power_is(
            5int,
            3550805520339104461864818922942441294135296nat,
            21888242871839275222246405745257275088548364400416034343698204186575808495617int,
            16160323223625149218691898021878502538467640817267864944299671648961520112051int,
        ),
{
    lemma_power_field_order_root();
    lemma_power_field_order_tb();
    lemma_power_of_power(
        5int,
        402653184nat,
        21888242871839275222246405745257275088548364400416034343698204186575808495617int,
        19887383362718182203517009867385956224532393031860387934578001712995117994586int,
        8818520904429516349893855360504094nat,
        16160323223625149218691898021878502538467640817267864944299671648961520112051int,
    );
    assert(402653184nat * 8818520904429516349893855360504094nat
        == 3550805520339104461864818922942441294135296nat);
}

/// The power of a base with the leading bits of an exponent.
proof fn lemma_power_field_order_tba_part_1()
    ensures
        power_is(
            16160323223625149218691898021878502538467640817267864944299671648961520112051int,
            22025491nat,
            21888242871839275222246405745257275088548364400416034343698204186575808495617int,
            7966499077075079844499546852765000361006590128805401062994770703267913395441int,
        ),
{
    let n = 21888242871839275222246405745257275088548364400416034343698204186575808495617int;
    let b = 16160323223625149218691898021878502538467640817267864944299671648961520112051int;
    lemma_power_one(b, n);
    let e = 1nat;
    let a = 16160323223625149218691898021878502538467640817267864944299671648961520112051int;
    let q = 11931339039920536039738201280318469992352814642651190015259779645443578143844int;
    let r = 20640289568196827730283216898595579116222031173001105907681275330172725894853int;
    lemma_power_square(b, n, e, a, q, r);
    let e = 2 * e;
    let a = r;
    let q = 19463488044859037970860927848018460691785286937759005064056476475782431151562int;
    let r = 4456550759113038030977411429536771310811455278659487313459534820977472187855int;
    lemma_power_square(b, n, e, a, q, r);
    let e = 2 * e;
    let a = r;
    let q = 3290318969478197974936769274076944234901487400339480735445404307802432975112int;
    let r = 15300365983284032386752303440779793832069073283747539513586352969361399256501int;
    lemma_power_times(b, n, e, a, q, r);
    let e = e + 1;
    let a = r;
    let q = 10695294299919451022852986846277288321710935077207993664827362137485125630748int;
    let r = 18054383828742476121524615011333057238540498909732338152197601254221472331485int;
    lemma_power_square(b, n, e, a, q, r);
    let e = 2 * e;
    let a = r;
    let q = 14892048546068022291071100924475316131433076875383177485811547279530659168869int;
    let r = 10289161075634646132396088226753891711775121800601351840294838504575272958052int;
    lemma_power_square(b, n, e, a, q, r);
    let e = 2 * e;
    let a = r;
    let q = 7596597390470487730406915620876973332093740348852836592568146130143971775231int;
    let r = 15184184690478143647245738027716804979372306664821872155487440002998290022125int;
    lemma_power_times(b, n, e, a, q, r);
    let e = e + 1;
    let a = r;
    let q = 10533484394545959373562088372213529957122661077530170602444555614719827995119int;
    let r = 13181509065017946478277357901591312937213369868230198135974869829860380622202int;
    lemma_power_square(b, n, e, a, q, r);
    let e = 2 * e;
    let a = r;
    let q = 7938151191418585203243131354624161766097466613015308695183120152554081140173int;
    let r = 990222278209865095802688256757021421160563747052814196447136241933422207063int;
    lemma_power_square(b, n, e, a, q, r);
    let e = 2 * e;
    let a = r;
    let q = 44797573108285800206220655486295608648601431217399103122758908204862027624int;
    let r = 1176564059710376401181666177204060855866579071275650351872520769138310161961int;
    lemma_power_square(b, n, e, a, q, r);
    let e = 2 * e;
    let a = r;
    let q = 63244134977283299628917965991582674520121009418740871289778713970663501263int;
    let r = 17151852744864229296853733550075235418703122388776214642062658668100041901250int;
    lemma_power_square(b, n, e, a, q, r);
    let e = 2 * e;
    let a = r;
    let q = 13440368617254202636437798826485323229839465679405953317470163891331689355913int;
    let r = 20637358044563517704623373576645685802566537348189196103798285400278538029179int;
    lemma_power_square(b, n, e, a, q, r);
    let e = 2 * e;
    let a = r;
    let q = 19457959670552668538974932445306502435779756772936818107276720870087403427890int;
    let r = 10422107433836258404281549401320172336519335309274612604920596243811614855911int;
    lemma_power_square(b, n, e, a, q, r);
    let e = 2 * e;
    let a = r;
    let q = 4962496258764219521053163519883029861636836758068049884986620762243186902708int;
    let r = 20955572311910382310754128110134066184427022897575706801176938637382068209085int;
    lemma_power_square(b, n, e, a, q, r);
    let e = 2 * e;
    let a = r;
    let q = 20062643378499953685424120210514643026733725938820658324545387804977245484575int;
    let r = 17956271041642389731172547138398861034092980149483310904369012343782347929450int;
    lemma_power_square(b, n, e, a, q, r);
    let e = 2 * e;
    let a = r;
    let q = 13257306473755214885153652254660459420682800274081731890422860170908063338027int;
    let r = 18206395734980967719323147915695503432579416292146142351970707374353623874291int;
    lemma_power_times(b, n, e, a, q, r);
    let e = e + 1;
    let a = r;
    let q = 15143876445431611525364635196509028900157010506727461881647173716331100292692int;
    let r = 15895936072517977091320599593110428002308308044990969920641715219248071621717int;
    lemma_power_square(b, n, e, a, q, r);
    let e = 2 * e;
    let a = r;
    let q = 11544132852558457248469955608738060055801469043942085372760872637063390948019int;
    let r = 5035719246712228679096663096691377411724271979963269651174165569746509695366int;
    lemma_power_square(b, n, e, a, q, r);
    let e = 2 * e;
    let a = r;
    let q = 3717925242642443490785773616565197648806550011155299223335932132013542046653int;
    let r = 8816349149798848302964315272107940679292562526310063707136460709635035435765int;
    lemma_power_times(b, n, e, a, q, r);
    let e = e + 1;
    let a = r;
    let q = 3551130750251373125127544282627769705904959808441794135194987298944591646125int;
    let r = 1168067354362723284515707378206040737825453499520724897688472603621563601100int;
    lemma_power_square(b, n, e, a, q, r);
    let e = 2 * e;
    let a = r;
    let q = 62333982326342965203569270034592221707627896459494549200462246749471278466int;
    let r = 14131559090298586317897187837979242214515419960199949333532872992742773726478int;
    lemma_power_square(b, n, e, a, q, r);
    let e = 2 * e;
    let a = r;
    let q = 10433480836728000396890973790782667951232386360305901207396639133870850449864int;
    let r = 16507277676738886733275391180855479182647439507722102087714800839087863340290int;
    lemma_power_times(b, n, e, a, q, r);
    let e = e + 1;
    let a = r;
    let q = 12449159025347773299721132084363555449243106415516133750767063647906825281343int;
    let r = 8967471968492598422287509537953454865580900551470619233961435152340729910469int;
    lemma_power_square(b, n, e, a, q, r);
    let e = 2 * e;
    let a = r;
    let q = 3673915442941317128582318054958826762147200589783634507735787090255302907882int;
    let r = 11294236410134583178664990355330721605627517050999827335015122568032804046767int;
    lemma_power_square(b, n, e, a, q, r);
    let e = 2 * e;
    let a = r;
    let q = 5827775981603535296004111972714393316780012610596490720559119558458340641644int;
    let r = 14419681917729654372791189450920622539217165745144650179189246381129381477941int;
    lemma_power_square(b, n, e, a, q, r);
    let e = 2 * e;
    let a = r;
    let q = 9499493761375071004973050155152988491515808160280041889938033057950769159622int;
    let r = 452409905432520114944610618206456314904634536898704867841581534214309222707int;
    lemma_power_square(b, n, e, a, q, r);
    let e = 2 * e;
    let a = r;
    let q = 334019059646191663063283212030192243400712711537550264694997371208158285863int;
    let r = 946462312940466660337974760679250281735994751183167442730250342809884979586int;
    lemma_power_times(b, n, e, a, q, r);
    let e = e + 1;
    let a = r;
    let q = 40925665667257112332724573035669259315354204605845661628082166018727656144int;
    let r = 16416180268349741928243989774801454418878011343760637044772888266306529610548int;
    lemma_power_square(b, n, e, a, q, r);
    let e = 2 * e;
    let a = r;
    let q = 12312133787115183005969682646040271876632988110202003348416713371487569494445int;
    let r = 6795898569632229500997203907795437642545354199230696788010262896591864512739int;
    lemma_power_square(b, n, e, a, q, r);
    let e = 2 * e;
    let a = r;
    let q = 2110002051747542053426801446834524729863636022020109364118945873677884435583int;
    let r = 768159644567640933407878748521549858703430036430011207355359593547518942410int;
    lemma_power_square(b, n, e, a, q, r);
    let e = 2 * e;
    let a = r;
    let q = 567140460577087912010910266446505027132618986110222318912060986689060414771int;
    let r = 20288514631899104821835364421522991002758564825776407271037051192592660424203int;
    lemma_power_times(b, n, e, a, q, r);
    let e = e + 1;
    let a = r;
    let q = 18805704431321270451053279137958911571180088631991126138304192185226089797772int;
    let r = 10871596272034257145050555354173353056477000653801856001353525302032829819885int;
    lemma_power_square(b, n, e, a, q, r);
    let e = 2 * e;
    let a = r;
    let q = 8026615509592463055615665849249463478216575435329094714006062730478072989382int;
    let r = 7966499077075079844499546852765000361006590128805401062994770703267913395441int;
    lemma_power_times(b, n, e, a, q, r);
    let e = e + 1;
    let a = r;
}

/// The power of a base with the leading bits of an exponent.
proof fn lemma_power_field_order_tba_part_2()
    ensures
        power_is(
            16160323223625149218691898021878502538467640817267864944299671648961520112051int,
            11547701083558nat,
            21888242871839275222246405745257275088548364400416034343698204186575808495617int,
            3024105173874139181253720680491229268623469184308273014136626612900097386811int,
        ),
{
    let n = 21888242871839275222246405745257275088548364400416034343698204186575808495617int;
    let b = 16160323223625149218691898021878502538467640817267864944299671648961520112051int;
    lemma_power_field_order_tba_part_1();
    let e = 22025491nat;
    let a = 7966499077075079844499546852765000361006590128805401062994770703267913395441int;
    let q = 2899506731382732873753543038588676936267310719229167765930249679510901535845int;
    let r = 19753592905620364674717625665084297399824728170712454899522068626401388693116int;
    lemma_power_square(b, n, e, a, q, r);
    let e = 2 * e;
    let a = r;
    let q = 14584288380381501559688359692768934256635691098553593478752110836280086214500int;
    let r = 19651036650743322489096240921982138604183408599078324656938763648595400494416int;
    lemma_power_times(b, n, e, a, q, r);
    let e = e + 1;
    let a = r;
    let q = 17642496188932681161979034468019452513980133517202113141439538097490518765729int;
    let r = 5111646563655152486640206174014792755543312597556724194522292877494100871263int;
    lemma_power_square(b, n, e, a, q, r);
    let e = 2 * e;
    let a = r;
    let q = 3773983190760284933598977489019973045406639905408590324648529695868994607186int;
    let r = 7175319781924608884784154893467183371331174948370741031218932378239968186651int;
    lemma_power_times(b, n, e, a, q, r);
    let e = e + 1;
    let a = r;
    let q = 2352185795558668330480019305142223991220182894256320082183483634450854817057int;
    let r = 12248163773575721649513959249861251363179295834920500699339436029300253256632int;
    lemma_power_square(b, n, e, a, q, r);
    let e = 2 * e;
    let a = r;
    let q = 6853794372747045796234045770374227724039635042071019893820895113609832257041int;
    let r = 13715133186782172718348908567999541123487333855208457782242018921623786094127int;
    lemma_power_square(b, n, e, a, q, r);
    let e = 2 * e;
    let a = r;
    let q = 10126029149586249666103246676887226775010752547409448190736096596527642338901int;
    let r = 17129335750624904214966718185402843546746930325271310354801802683428585927560int;
    lemma_power_times(b, n, e, a, q, r);
    let e = e + 1;
    let a = r;
    let q = 13405102683465462547772518313198828868792611448941996850983397477267984755197int;
    let r = 6411495166568108470058007008974358919519813055277136028027272573190975082051int;
    lemma_power_square(b, n, e, a, q, r);
    let e = 2 * e;
    let a = r;
    let q = 4733675281525440514194108195908862172160852503981120255546197761160625894918int;
    let r = 12208111131609650866656282534795035552214187002881722183646654368758533322195int;
    lemma_power_times(b, n, e, a, q, r);
    let e = e + 1;
    let a = r;
    let q = 6809042565654232753204253328772166037705086240353108371497401375992211295123int;
    let r = 20316828728613765535724394816925029157117133277247013312008044968213840642134int;
    lemma_power_square(b, n, e, a, q, r);
    let e = 2 * e;
    let a = r;
    let q = 15000131397292115270692545681497210006460606876266964520279734592808560004398int;
    let r = 14291886352039820718064257947623858803161198186832017670099791345254188033268int;
    lemma_power_times(b, n, e, a, q, r);
    let e = e + 1;
    let a = r;
    let q = 9331859880009556728903543413023504654613026910034752499503959179178497834378int;
    let r = 5193737250400651519948491738742060170673956790457701123245192941565269838598int;
    lemma_power_square(b, n, e, a, q, r);
    let e = 2 * e;
    let a = r;
    let q = 3834591620556328660712173752326211645461709034045604147371352243241317970984int;
    let r = 2215896393092773256609714915481887312209246408566679296472324250155747567370int;
    lemma_power_times(b, n, e, a, q, r);
    let e = e + 1;
    let a = r;
    let q = 224330333580082258756166301749811377393669252378999094569936717094791308943int;
    let r = 18715830608222239914259163903406078484073602129665094144311403954637580314069int;
    lemma_power_square(b, n, e, a, q, r);
    let e = 2 * e;
    let a = r;
    let q = 13818097405005310101338724539659203975197966586231863566519404136195979920508int;
    let r = 2608438402663149078051867234106290634905522742905519668778138792285925332083int;
    lemma_power_times(b, n, e, a, q, r);
    let e = e + 1;
    let a = r;
    let q = 310849570718242982199445149045316105903431900370140076660682546835730954704int;
    let r = 13072829667266879630037566032052176022518145700935789306282647404104419586521int;
    lemma_power_square(b, n, e, a, q, r);
    let e = 2 * e;
    let a = r;
    let q = 9651809608811986506128265595138779472422603035983686842848077106339689937028int;
    let r = 21240062978156899408578475223059082536313843670981312809931059517664865258295int;
    lemma_power_times(b, n, e, a, q, r);
    let e = e + 1;
    let a = r;
    let q = 20611077735092853094831787165467704385218417125321148867753292875214902499320int;
    let r = 8077973231352146465303530635455042423866263774484368725908031484894500826585int;
    lemma_power_square(b, n, e, a, q, r);
    let e = 2 * e;
    let a = r;
    let q = 2981219274133472553996440442120028164022933959971000748102281761700676803649int;
    let r = 8210948293889359767993338504764329917704238765482021258785060567389456655792int;
    lemma_power_square(b, n, e, a, q, r);
    let e = 2 * e;
    let a = r;
    let q = 6062230722615122682175457238823596765389606408624509884074296414100645972070int;
    let r = 2607286115296924766555167018878321801058072362173466520545677223594278732202int;
    lemma_power_times(b, n, e, a, q, r);
    let e = e + 1;
    let a = r;
    let q = 310574993471319060570385321120142633775717369139993928593541411002526100142int;
    let r = 9650947254433123410012795467384948550248348736546063053907641718073521691190int;
    lemma_power_square(b, n, e, a, q, r);
    let e = 2 * e;
    let a = r;
    let q = 7125397317591597490534108184005226531900802881530053725527268447226969358312int;
    let r = 16725974137761094521773479507978177128891578153127910097624033897399265012186int;
    lemma_power_times(b, n, e, a, q, r);
    let e = e + 1;
    let a = r;
    let q = 12781209185913278747238791932394112296813712589966024863891966043363613646930int;
    let r = 9795045326462123049383572931437490271234825922212059818874478104312437992786int;
    lemma_power_square(b, n, e, a, q, r);
    let e = 2 * e;
    let a = r;
    let q = 4383308130726409865978434719603922098814128209409983268020691280831852720824int;
    let r = 13960962855385919024347019064958735545817182667432187000767262047568859413388int;
    lemma_power_square(b, n, e, a, q, r);
    let e = 2 * e;
    let a = r;
    let q = 10307527816512333972565108838688766880644351582772864723951232871326459170671int;
    let r = 1066487564323413011767423554343012579728283856412483728676199565653931089781int;
    lemma_power_times(b, n, e, a, q, r);
    let e = e + 1;
    let a = r;
    let q = 51963774868371164172224673958096875673610386219621875576979848597026525757int;
    let r = 18193505754060094582969049769535041235801542530963288878849670054584010520892int;
    lemma_power_square(b, n, e, a, q, r);
    let e = 2 * e;
    let a = r;
    let q = 15122440552269120567848671744943643991589389677685177457291861791187734281190int;
    let r = 3633996876236419998648845204283423338700247700194796305364499433792407931434int;
    lemma_power_square(b, n, e, a, q, r);
    let e = 2 * e;
    let a = r;
    let q = 603334556081995820313962935708521619225649548806166529939241804102290826973int;
    let r = 15034398113831190638708970445607151723607893604916900838014674402768869419015int;
    lemma_power_square(b, n, e, a, q, r);
    let e = 2 * e;
    let a = r;
    let q = 11100056519601121864415618734850284287222611308142122380852291223427619064425int;
    let r = 10133825420925726028862339937724908550273865136835321966263972321181816924540int;
    lemma_power_times(b, n, e, a, q, r);
    let e = e + 1;
    let a = r;
    let q = 4691761612071834044190138297087619040629799289784068235501749433525993611517int;
    let r = 3128818083682118099084102998050524185400222288781383257157173254427558990611int;
    lemma_power_square(b, n, e, a, q, r);
    let e = 2 * e;
    let a = r;
    let q = 2310039770496098745756614235736720589345439544757113512489389085406034231882int;
    let r = 14819927401811932204839371756188156296666672108522511604886590716722618291967int;
    lemma_power_times(b, n, e, a, q, r);
    let e = e + 1;
    let a = r;
    let q = 10034165349907805356792309392140178580614313664853899249984041316559803508934int;
    let r = 3024105173874139181253720680491229268623469184308273014136626612900097386811int;
    lemma_power_square(b, n, e, a, q, r);
    let e = 2 * e;
    let a = r;
}

/// A power of a base, computed from the bits of the exponent.
proof fn lemma_power_field_order_tba()
    ensures
        power_is(
            16160323223625149218691898021878502538467640817267864944299671648961520112051int,
            94598767276516441nat,
            21888242871839275222246405745257275088548364400416034343698204186575808495617int,
            5528462210625215277565490606014948898394267164327525157484837536182327244735int,
        ),
{
    let n = 21888242871839275222246405745257275088548364400416034343698204186575808495617int;
    let b = 16160323223625149218691898021878502538467640817267864944299671648961520112051int;
    lemma_power_field_order_tba_part_2();
    let e = 11547701083558nat;
    let a = 3024105173874139181253720680491229268623469184308273014136626612900097386811int;
    let q = 2232729112071325346309867860510079534307742837096329499542162011151691643369int;
    let r = 17133927046711626968109201578947340542865803319241018855598390576350645945688int;
    lemma_power_times(b, n, e, a, q, r);
    let e = e + 1;
    let a = r;
    let q = 13412289774056556005886177496807861007585463996105972158927074996489425158725int;
    let r = 7983972814153450293148873746998531898462388905723395658345772058878153985019int;
    lemma_power_square(b, n, e, a, q, r);
    let e = 2 * e;
    let a = r;
    let q = 2912240250182537982786738334284057082255943797111882883706816641905304734042int;
    let r = 13587301145011017548370050047413486102568675870907044673701600316077768736447int;
    lemma_power_square(b, n, e, a, q, r);
    let e = 2 * e;
    let a = r;
    let q = 8434425434978028403233224839058423769244247377678723692362134851411688067255int;
    let r = 15906354104779757953238176260846459813638757959650851485779346705991077462474int;
    lemma_power_square(b, n, e, a, q, r);
    let e = 2 * e;
    let a = r;
    let q = 11743830930046574604231260121127576510087883270608027629858689047305208432435int;
    let r = 2713365260690967433584160217909275053429871035589532779138103637201089536779int;
    lemma_power_times(b, n, e, a, q, r);
    let e = e + 1;
    let a = r;
    let q = 336360989826037197398722287175199011696537084810367925405576071286354774295int;
    let r = 18146361249290976474368446403979772498152871074108366036584040771443261929826int;
    lemma_power_square(b, n, e, a, q, r);
    let e = 2 * e;
    let a = r;
    let q = 15044169078250857375189237914907849276328291788529712428298376043493839856247int;
    let r = 19438417894730378958163402521190092708376201291380066794896871950769138820877int;
    lemma_power_square(b, n, e, a, q, r);
    let e = 2 * e;
    let a = r;
    let q = 17262787719534436997802891698777615741255801166664848027776125115150361515571int;
    let r = 16290197491309864162344482250060590212317921963284168406608986839432260296822int;
    lemma_power_square(b, n, e, a, q, r);
    let e = 2 * e;
    let a = r;
    let q = 12123884765884774332905749937689780538737555487576449269958136958460398594351int;
    let r = 9160142419431597341668973934828419116884299133269831407997727155212798840117int;
    lemma_power_square(b, n, e, a, q, r);
    let e = 2 * e;
    let a = r;
    let q = 6763030871834219086738421869504091105784545580984198429467827304927824877419int;
    let r = 7391282297599597136308269203631803944780593830771409033956662949958850177444int;
    lemma_power_times(b, n, e, a, q, r);
    let e = e + 1;
    let a = r;
    let q = 2495908617365342526021713924462067495219917178440977947118318743781970938608int;
    let r = 2821481937300149488218778399020345660693139975700090659049735201304342292000int;
    lemma_power_square(b, n, e, a, q, r);
    let e = 2 * e;
    let a = r;
    let q = 363700291938603646927725585621800070152941327497592874255588012727012740939int;
    let r = 11544156245496671249831529648046823366420691664027485783442387987335926035637int;
    lemma_power_square(b, n, e, a, q, r);
    let e = 2 * e;
    let a = r;
    let q = 8523173713102202232634837628793286772328852482170551900896096517906646583557int;
    let r = 15982752128926438000272743743425400127632467553364802003148049614287600391818int;
    lemma_power_times(b, n, e, a, q, r);
    let e = e + 1;
    let a = r;
    let q = 11670574340316481878107377256778872839288223023281272962409559237518209049832int;
    let r = 9004366417203017668468719420396034508938042028812186813330767497988214758780int;
    lemma_power_square(b, n, e, a, q, r);
    let e = 2 * e;
    let a = r;
    let q = 6648019787516583220907093587589062680309871525057011660974052057014624078434int;
    let r = 3981007289353589958243339825858092171300674979801197389736113883730982834002int;
    lemma_power_times(b, n, e, a, q, r);
    let e = e + 1;
    let a = r;
    let q = 724060817978061424963821025048101238511401309918345016983095787463022775467int;
    let r = 12194333093157806912999335507536299644486884379453169253558584918534242707865int;
    lemma_power_square(b, n, e, a, q, r);
    let e = 2 * e;
    let a = r;
    let q = 6793681907568681687037314384992561120609032049801197801708502851011944409806int;
    let r = 7519128678842010697019147347247256514289581989608722922761386422501930037923int;
    lemma_power_square(b, n, e, a, q, r);
    let e = 2 * e;
    let a = r;
    let q = 2582998389593141256382030855283914980723267079106087563469862684107481576257int;
    let r = 16167082460969040452507782633229270537214114992426916335958053420297182388360int;
    lemma_power_square(b, n, e, a, q, r);
    let e = 2 * e;
    let a = r;
    let q = 11936329456961412977182083385612514927221833924728093536994660229052049313625int;
    let r = 5528462210625215277565490606014948898394267164327525157484837536182327244735int;
    lemma_power_times(b, n, e, a, q, r);
    let e = e + 1;
    let a = r;
}

/// A power of the base of the certificate, as the power of a power.
proof fn lemma_node_field_order_tba()
    ensures
        power_is(
            5int,
            335901825062728809143932669710702910076580447285758222401536nat,
            21888242871839275222246405745257275088548364400416034343698204186575808495617int,
            5528462210625215277565490606014948898394267164327525157484837536182327244735int,
        ),
{
    lemma_node_field_order_tb();
    lemma_power_field_order_tba();
    lemma_power_of_power(
        5int,
        3550805520339104461864818922942441294135296nat,
        21888242871839275222246405745257275088548364400416034343698204186575808495617int,
        16160323223625149218691898021878502538467640817267864944299671648961520112051int,
        94598767276516441nat,
        5528462210625215277565490606014948898394267164327525157484837536182327244735int,
    );
    assert(3550805520339104461864818922942441294135296nat * 94598767276516441nat
        == 335901825062728809143932669710702910076580447285758222401536nat);
}

/// A power of a base, computed from the bits of the exponent.
proof fn lemma_power_field_order_tbaa()
    ensures
        power_is(
            5528462210625215277565490606014948898394267164327525157484837536182327244735int,
            39nat,
            21888242871839275222246405745257275088548364400416034343698204186575808495617int,
            19643034808648967981397807206080768497060516784825884862247505212574391305991int,
        ),
{
    let n = 21888242871839275222246405745257275088548364400416034343698204186575808495617int;
    let b = 5528462210625215277565490606014948898394267164327525157484837536182327244735int;
    lemma_power_one(b, n);
    let e = 1nat;
    let a = 5528462210625215277565490606014948898394267164327525157484837536182327244735int;
    let q = 1396361260849932697328290110778404171366472796797941796959714036122478956204int;
    let r = 10970976748711516723967618554739534106553670597140543604468696420090916262357int;
    lemma_power_square(b, n, e, a, q, r);
    let e = 2 * e;
    let a = r;
    let q = 5498948980304997948223053942926936833469363683486326584126777371061544323814int;
    let r = 13485419086506520011489561292126316181605528527588958286578777820862007472211int;
    lemma_power_square(b, n, e, a, q, r);
    let e = 2 * e;
    let a = r;
    let q = 8308411461053606690013721676262303094825406968828231630813408289393128214375int;
    let r = 3821841239029228430955190396287880968687682440209423930858293420731713334146int;
    lemma_power_square(b, n, e, a, q, r);
    let e = 2 * e;
    let a = r;
    let q = 965308407289555635386205877524711029667284828896364459264518796251668735811int;
    let r = 13801037859479631477674699166473508975296467491688679697221305967536449780923int;
    lemma_power_times(b, n, e, a, q, r);
    let e = e + 1;
    let a = r;
    let q = 8701870091355807136952949758750957062786144580362504066959111556191871875559int;
    let r = 3961013899875601799372852893480138772401518843504458528297306491494673807026int;
    lemma_power_square(b, n, e, a, q, r);
    let e = 2 * e;
    let a = r;
    let q = 1000460191777073104640347581655937593871383882960974423537203527169381669676int;
    let r = 19186522688379805104012087820439834971995028698686227842278605802390476698018int;
    lemma_power_times(b, n, e, a, q, r);
    let e = e + 1;
    let a = r;
    let q = 16818282537669026398287696547721655688857554391540713286895930201469306248928int;
    let r = 10175290858564573123813732714336883025030021215080188922340885763151366179748int;
    lemma_power_square(b, n, e, a, q, r);
    let e = 2 * e;
    let a = r;
    let q = 2570042342963431740132924701125481534706018840054428738536639198274582520917int;
    let r = 19643034808648967981397807206080768497060516784825884862247505212574391305991int;
    lemma_power_times(b, n, e, a, q, r);
    let e = e + 1;
    let a = r;
}

/// A power of the base of the certificate, as the power of a power.
proof fn lemma_node_field_order_tbaa()
    ensures
        power_is(
            5int,
            13100171177446423556613374118717413492986637444144570673659904nat,
            21888242871839275222246405745257275088548364400416034343698204186575808495617int,
            19643034808648967981397807206080768497060516784825884862247505212574391305991int,
        ),
{
    lemma_node_field_order_tba();
    lemma_power_field_order_tbaa();
    lemma_power_of_power(
        5int,
        335901825062728809143932669710702910076580447285758222401536nat,
        21888242871839275222246405745257275088548364400416034343698204186575808495617int,
        5528462210625215277565490606014948898394267164327525157484837536182327244735int,
        39nat,
        19643034808648967981397807206080768497060516784825884862247505212574391305991int,
    );
    assert(335901825062728809143932669710702910076580447285758222401536nat * 39nat
        == 13100171177446423556613374118717413492986637444144570673659904nat);
}

/// The power of a base with the leading bits of an exponent.
proof fn lemma_power_field_order_tbab_part_1()
    ensures
        power_is(
            5528462210625215277565490606014948898394267164327525157484837536182327244735int,
            778042nat,
            21888242871839275222246405745257275088548364400416034343698204186575808495617int,
            7573990690561421212252396881785228072973731724050255137213983688590989226276int,
        ),
{
    let n = 21888242871839275222246405745257275088548364400416034343698204186575808495617int;
    let b = 5528462210625215277565490606014948898394267164327525157484837536182327244735int;
    lemma_power_one(b, n);
    let e = 1nat;
    let a = 5528462210625215277565490606014948898394267164327525157484837536182327244735int;
    let q = 1396361260849932697328290110778404171366472796797941796959714036122478956204int;
    let r = 10970976748711516723967618554739534106553670597140543604468696420090916262357int;
    lemma_power_square(b, n, e, a, q, r);
    let e = 2 * e;
    let a = r;
    let q = 5498948980304997948223053942926936833469363683486326584126777371061544323814int;
    let r = 13485419086506520011489561292126316181605528527588958286578777820862007472211int;
    lemma_power_square(b, n, e, a, q, r);
    let e = 2 * e;
    let a = r;
    let q = 3406103918470023094080719093131935670198738061782279142960958766663718194043int;
    let r = 16005738276239558677645420794830228918729387282284042018080769699681787549554int;
    lemma_power_times(b, n, e, a, q, r);
    let e = e + 1;
    let a = r;
    let q = 11704167359047258878839876827459777721451214689981248578204746851526663605618int;
    let r = 14596723474547560693735013839476265632264633780944253511456443756722436022610int;
    lemma_power_square(b, n, e, a, q, r);
    let e = 2 * e;
    let a = r;
    let q = 3686793617947512865415054275606622400514824827321563589239315615938395518336int;
    let r = 10453190948285326126931905981768783997365098482375727536588857462006364325038int;
    lemma_power_times(b, n, e, a, q, r);
    let e = e + 1;
    let a = r;
    let q = 4992141289783319820152138783888090849191217017112518657773314319720750610588int;
    let r = 17511485982584814602834649405230909989543961906344464809393285756478841908648int;
    lemma_power_square(b, n, e, a, q, r);
    let e = 2 * e;
    let a = r;
    let q = 4422994987467361245167173692171390144000410155543938538876136466064193167102int;
    let r = 15194089158780412887060843212337246092012395783044737450909102383545093376346int;
    lemma_power_times(b, n, e, a, q, r);
    let e = e + 1;
    let a = r;
    let q = 10547230616761208068594075813096008977367184617140260833060278342853804718157int;
    let r = 20716933120834451080394232882600818599355682900747422511753011443603137493847int;
    lemma_power_square(b, n, e, a, q, r);
    let e = 2 * e;
    let a = r;
    let q = 5232616548948177291012694516406816680605381090221528278124517680458988842321int;
    let r = 13044776153957996245119481000370905347892366209685947788454701978653093038488int;
    lemma_power_times(b, n, e, a, q, r);
    let e = e + 1;
    let a = r;
    let q = 7774319112924392548175136431874989640524400187119484572422776250286584719811int;
    let r = 1024159547181648896951370527316926376177755606037908578786033972296882757757int;
    lemma_power_square(b, n, e, a, q, r);
    let e = 2 * e;
    let a = r;
    let q = 47920830567574039202449687886293335525270922664257784140086591889090273254int;
    let r = 19444074116450538828897191104164129467070064025449308676640067860308352343331int;
    lemma_power_square(b, n, e, a, q, r);
    let e = 2 * e;
    let a = r;
    let q = 4911121902420656510965625453457499894467575273061315747239787903661289590955int;
    let r = 7536272517700930383365926516445408912783506420856279499506799367142141768050int;
    lemma_power_times(b, n, e, a, q, r);
    let e = e + 1;
    let a = r;
    let q = 2594790444971053370174712936114372528035051023809169003099255649932121522602int;
    let r = 7891344271973015249084702891990259707456928517201229316893436857694917367066int;
    lemma_power_square(b, n, e, a, q, r);
    let e = 2 * e;
    let a = r;
    let q = 1993170436479654108760987482197015674086484944921759474883946076398328998401int;
    let r = 7336033317952258526979231776836589905677207845953105654860479318738202389093int;
    lemma_power_times(b, n, e, a, q, r);
    let e = e + 1;
    let a = r;
    let q = 2458734817464282505135789257591040218244924443010890887030805936173074244140int;
    let r = 18144696662134228243768851728864787662722372179014545004148151710310187428269int;
    lemma_power_square(b, n, e, a, q, r);
    let e = 2 * e;
    let a = r;
    let q = 4582929310827648543285583380484189196529922270012100061156303684142139773646int;
    let r = 20374697898623804381327493432504913556595064636668123339743146767278057304133int;
    lemma_power_times(b, n, e, a, q, r);
    let e = e + 1;
    let a = r;
    let q = 18965812691811652978271548796066680801126216187409068147200420076827792771975int;
    let r = 1033478260461305777773971578449756970505848381502135878521835448160590948114int;
    lemma_power_square(b, n, e, a, q, r);
    let e = 2 * e;
    let a = r;
    let q = 261032625684809103021903986067254508919508539004363922880022703680081197640int;
    let r = 17129444999892396138431853985828997043538772159112946762696233381510913935910int;
    lemma_power_times(b, n, e, a, q, r);
    let e = e + 1;
    let a = r;
    let q = 13405273676940090688126824442338289538851131201176837374859650668928131305687int;
    let r = 20679695616198322152580361181488663333636241227202314479342254526374160854221int;
    lemma_power_square(b, n, e, a, q, r);
    let e = 2 * e;
    let a = r;
    let q = 5223211219411027420867408194829726887124803145137081676668686930948367355168int;
    let r = 8136693095886067187203535027595426702517031925689441473873478574249714477779int;
    lemma_power_times(b, n, e, a, q, r);
    let e = e + 1;
    let a = r;
    let q = 3024718563490459965155646220146648318197220284656794853361298329999220541666int;
    let r = 18315885185564922428422888484317804167108832566732123378294319949135357894919int;
    lemma_power_square(b, n, e, a, q, r);
    let e = 2 * e;
    let a = r;
    let q = 15326568336026820389427115964607780939820650229076765740599887148897015960620int;
    let r = 12375609591214227180090353671089428759949891073871013640879441513862731414021int;
    lemma_power_square(b, n, e, a, q, r);
    let e = 2 * e;
    let a = r;
    let q = 6997168007085616435727907583356217721729306991327354691744169997351465760398int;
    let r = 1317862147689957360757362135449906882918010714772351078009800352016760212875int;
    lemma_power_square(b, n, e, a, q, r);
    let e = 2 * e;
    let a = r;
    let q = 332861396183196312252786443099392931247137620083209880859734568029158673636int;
    let r = 7194515060589182956953463365059190806165799054531792853135225402138583509713int;
    lemma_power_times(b, n, e, a, q, r);
    let e = e + 1;
    let a = r;
    let q = 2364787674374662105473529348243126409841583226124480236645167769035280162996int;
    let r = 14788721868291169725526017460721451797078084321210816784877761107523853753837int;
    lemma_power_square(b, n, e, a, q, r);
    let e = 2 * e;
    let a = r;
    let q = 3735287956690341738943488490796977832389893003224736634600629785546418776180int;
    let r = 247429053301991762736841113624649105401780886534186159930143544099110295135int;
    lemma_power_times(b, n, e, a, q, r);
    let e = e + 1;
    let a = r;
    let q = 2796987258245615924387059964235143272272285190719783975940490809305329212int;
    let r = 3291477008656521683790366428916560362216025164647458007783369611364160604421int;
    lemma_power_square(b, n, e, a, q, r);
    let e = 2 * e;
    let a = r;
    let q = 831350710335489892521062511269502758676945327639934036994081658961128973010int;
    let r = 17973281792947290987610446692783647881480251280393583796581153497312893676265int;
    lemma_power_times(b, n, e, a, q, r);
    let e = e + 1;
    let a = r;
    let q = 14758556011104126632720741028110082606101438198429520624527630813291877354083int;
    let r = 8270285796116599633569977552773055830171294779353230539958851838423961796014int;
    lemma_power_square(b, n, e, a, q, r);
    let e = 2 * e;
    let a = r;
    let q = 3124856917475372763958235497708064007097421181707955109887671789287455356692int;
    let r = 10023703883860149373204489416531738505807185500291506440615753924547892669232int;
    lemma_power_square(b, n, e, a, q, r);
    let e = 2 * e;
    let a = r;
    let q = 2531754990882072724240109118637286270921526548589376135429718536772933106166int;
    let r = 3471633405167282476751987076794433028859990163742005410441526621555861819098int;
    lemma_power_times(b, n, e, a, q, r);
    let e = e + 1;
    let a = r;
    let q = 550626131592290208044258770173351435030076394541737050132116477434031251584int;
    let r = 7573990690561421212252396881785228072973731724050255137213983688590989226276int;
    lemma_power_square(b, n, e, a, q, r);
    let e = 2 * e;
    let a = r;
}

/// The power of a base with the leading bits of an exponent.
proof fn lemma_power_field_order_tbab_part_2()
    ensures
        power_is(
            5528462210625215277565490606014948898394267164327525157484837536182327244735int,
            1631676173538nat,
            21888242871839275222246405745257275088548364400416034343698204186575808495617int,
            11786744315932317909084718941762546404655632355287480989066879602292926292642int,
        ),
{
    let n = 21888242871839275222246405745257275088548364400416034343698204186575808495617int;
    let b = 5528462210625215277565490606014948898394267164327525157484837536182327244735int;
    lemma_power_field_order_tbab_part_1();
    let e = 778042nat;
    let a = 7573990690561421212252396881785228072973731724050255137213983688590989226276int;
    let q = 1913014286325736286526559730810232333043816218521615925457938629504695436112int;
    let r = 9579228250395117510803646833222370729754056684966255026726242173556089135756int;
    lemma_power_times(b, n, e, a, q, r);
    let e = e + 1;
    let a = r;
    let q = 4192278677208279252227382655560556275906317778101252244702597621599738320988int;
    let r = 8059157696877676052736476258082277279213086771141216119633199184889260581940int;
    lemma_power_square(b, n, e, a, q, r);
    let e = 2 * e;
    let a = r;
    let q = 2035556213330413738227341932188943901137689370814998540287879288533558158487int;
    let r = 7303940184643211022124779168096436915179977424140978203147199995986570234421int;
    lemma_power_times(b, n, e, a, q, r);
    let e = e + 1;
    let a = r;
    let q = 2437269292615588311001851532687053223968602339508478820476845074758994944428int;
    let r = 2395215540427416593228224217012613193393501039852464811341129837511696633165int;
    lemma_power_square(b, n, e, a, q, r);
    let e = 2 * e;
    let a = r;
    let q = 604975862114166504553361565711150344496480750971052714502993995516145270383int;
    let r = 1054091979737671975445913329931037725701807687999390028572302088085537224964int;
    lemma_power_times(b, n, e, a, q, r);
    let e = e + 1;
    let a = r;
    let q = 50762864257907322279523742571542976231494820301477302254779070298995479800int;
    let r = 14700471640649295630063196120178410572395804666188901379561550108620832764696int;
    lemma_power_square(b, n, e, a, q, r);
    let e = 2 * e;
    let a = r;
    let q = 9873056860839507156834169904935877898328539608473166709547565100773474266845int;
    let r = 8291388875899814371907082877147399858794557084535627992182862195597433054051int;
    lemma_power_square(b, n, e, a, q, r);
    let e = 2 * e;
    let a = r;
    let q = 2094212419992147751800785648813514597208603593895201855067518318377702755189int;
    let r = 12363825298744143705107321162957742562084497239380493837166585703961029664872int;
    lemma_power_times(b, n, e, a, q, r);
    let e = e + 1;
    let a = r;
    let q = 6983848676795155394331238619366774987341812251445252314541169142220394831854int;
    let r = 18027952064192164096335002006988311566027368519913336815194258766375219792466int;
    lemma_power_square(b, n, e, a, q, r);
    let e = 2 * e;
    let a = r;
    let q = 14848476304461806064354312318780766091385045213798058539459741523615290163038int;
    let r = 7306007772357137676305887599189224998479500731632437326890621664378671956710int;
    lemma_power_square(b, n, e, a, q, r);
    let e = 2 * e;
    let a = r;
    let q = 1845328020001839455119670298155270231151874838765773853576919856186393726873int;
    let r = 20235274755165041421580546449895852100454303211302656121905567132157379806209int;
    lemma_power_times(b, n, e, a, q, r);
    let e = e + 1;
    let a = r;
    let q = 18707136375201051240629430731860258186466408308661947882457752167305572298769int;
    let r = 11571798157443360285254804794774904395731165452096130180766923848976043956208int;
    lemma_power_square(b, n, e, a, q, r);
    let e = 2 * e;
    let a = r;
    let q = 6117736968685113374295736360084688139774261988777101274713269988804076964413int;
    let r = 18658095626402819121036181801755989683485193283726651898667878565230646261443int;
    lemma_power_square(b, n, e, a, q, r);
    let e = 2 * e;
    let a = r;
    let q = 15904635855986324067498962281529537698548986525205357513331672872919445862036int;
    let r = 17566570872048118345149670202356364598160542389489328375900813167407815746037int;
    lemma_power_square(b, n, e, a, q, r);
    let e = 2 * e;
    let a = r;
    let q = 14098181110723345780790700458564167046658189278122948751619858213356619217468int;
    let r = 11454252046021893521543796338951988677239914409932374732510772486354033367613int;
    lemma_power_square(b, n, e, a, q, r);
    let e = 2 * e;
    let a = r;
    let q = 2893078259327968859491902702809027946724554152434370314943405023023733365109int;
    let r = 7971043956056012008057944735609908535441811136247985942858107514789386540302int;
    lemma_power_times(b, n, e, a, q, r);
    let e = e + 1;
    let a = r;
    let q = 2902816005898878293020350677740501322733755668633100386944396986565495680324int;
    let r = 6084812216751723668234638892505369393584117444100078397710304874686683111296int;
    lemma_power_square(b, n, e, a, q, r);
    let e = 2 * e;
    let a = r;
    let q = 1536882361733214867410901307669314054204284965959674041999655703969796962029int;
    let r = 19389234089841875233132217003049629708859703061237061943496047829801673099667int;
    lemma_power_times(b, n, e, a, q, r);
    let e = e + 1;
    let a = r;
    let q = 17175540347935464317557695851422795084021783583668290881069440530811977790170int;
    let r = 18957819834746974998803164739622286544327727811626292415297186153491924825999int;
    lemma_power_square(b, n, e, a, q, r);
    let e = 2 * e;
    let a = r;
    let q = 16419725191788564467387586058148518594690491310142534842156113016437641568141int;
    let r = 21847440834645186282801642318055008316659765210266091757823596059412421010004int;
    lemma_power_square(b, n, e, a, q, r);
    let e = 2 * e;
    let a = r;
    let q = 21806714856833704510264509872778108918047149267306525173491055730612649907862int;
    let r = 2308051859478206505385727049329419186702667975983049065339570436807587239162int;
    lemma_power_square(b, n, e, a, q, r);
    let e = 2 * e;
    let a = r;
    let q = 582960339027721130199352326692984825632568694391276639576746404178059913946int;
    let r = 16884559116125601125250648001828836495573920120154327126754695088614212137388int;
    lemma_power_times(b, n, e, a, q, r);
    let e = e + 1;
    let a = r;
    let q = 13024724653102503123570457816505281108846033300322867827922947412364655238375int;
    let r = 2976818212419290181815241750983133101844012064065150495118134821168109760169int;
    lemma_power_square(b, n, e, a, q, r);
    let e = 2 * e;
    let a = r;
    let q = 751875200381402074777246071081318252479514858790645103207074542431011751447int;
    let r = 19518387718934754237107294875778121242843673419029380001465842653730025052416int;
    lemma_power_times(b, n, e, a, q, r);
    let e = e + 1;
    let a = r;
    let q = 17405118418016267000611861098411231103776450525134107537970423741784485347170int;
    let r = 6609192832926293764783918926007824431610151856888249956101752046445879083166int;
    lemma_power_square(b, n, e, a, q, r);
    let e = 2 * e;
    let a = r;
    let q = 1669328736596647245740392246316783042284733256559625870622473857603081176435int;
    let r = 2623764264054755692444214103912079834017584023432872645704994887656799445615int;
    lemma_power_times(b, n, e, a, q, r);
    let e = e + 1;
    let a = r;
    let q = 314513090595669072067896538623615499861770477432626421147454326853649375744int;
    let r = 16497220810462921462102316999925349408859475350892944079839736412627532614177int;
    lemma_power_square(b, n, e, a, q, r);
    let e = 2 * e;
    let a = r;
    let q = 12433994636422880344614749185401923584978982443294741405419487046415904087311int;
    let r = 8442557548035757553902802001823340997549187532602752623135739640311212571442int;
    lemma_power_square(b, n, e, a, q, r);
    let e = 2 * e;
    let a = r;
    let q = 3256395607872114905942210550887441434758879096293069776838055008313590601027int;
    let r = 14611490641769207190204873397691184443425116818310955689227655208554228760705int;
    lemma_power_square(b, n, e, a, q, r);
    let e = 2 * e;
    let a = r;
    let q = 9753896647829411524536121700790536056224506825059182950121162089076379858005int;
    let r = 8626770415259324768534789009618180700752861337529146705867678496301027232940int;
    lemma_power_square(b, n, e, a, q, r);
    let e = 2 * e;
    let a = r;
    let q = 2178922013966721656772966514670460016408311427514876776822450915349641668107int;
    let r = 15050130942710525706055821943013845435212278610942927137269941997441155383881int;
    lemma_power_times(b, n, e, a, q, r);
    let e = e + 1;
    let a = r;
    let q = 10348315427555351181746381734541577841493030014630648291685129799102979970607int;
    let r = 11786744315932317909084718941762546404655632355287480989066879602292926292642int;
    lemma_power_square(b, n, e, a, q, r);
    let e = 2 * e;
    let a = r;
}

/// A power of a base, computed from the bits of the exponent.
proof fn lemma_power_field_order_tbab()
    ensures
        power_is(
            5528462210625215277565490606014948898394267164327525157484837536182327244735int,
            1670836401704629nat,
            21888242871839275222246405745257275088548364400416034343698204186575808495617int,
            6341310577990807432600905929758526058773553824922923530000360212842548020076int,
        ),
{
    let n = 21888242871839275222246405745257275088548364400416034343698204186575808495617int;
    let b = 5528462210625215277565490606014948898394267164327525157484837536182327244735int;
    lemma_power_field_order_tbab_part_2();
    let e = 1631676173538nat;
    let a = 11786744315932317909084718941762546404655632355287480989066879602292926292642int;
    let q = 2977058090888121798120447600094872257969191642054337239335759368933229000808int;
    let r = 20405763683514082671199658084703542083099612985112074695705190064443606281334int;
    lemma_power_times(b, n, e, a, q, r);
    let e = e + 1;
    let a = r;
    let q = 19023692031631427986977989623386545823783922127323915193776795702621879154995int;
    let r = 3739237531631171669783776265950589560168211624909097808130915693737835662641int;
    lemma_power_square(b, n, e, a, q, r);
    let e = 2 * e;
    let a = r;
    let q = 944444627703335926257739472638872616636358416089680618343048472013255122519int;
    let r = 6508854043560263244134740502335989855796233382164650951208738452672093945912int;
    lemma_power_times(b, n, e, a, q, r);
    let e = e + 1;
    let a = r;
    let q = 1935522243993212375539207490253560802120057845481248050128048273252207443911int;
    let r = 4827081136299291905009269964907507809630341953615341822466968830760564673657int;
    lemma_power_square(b, n, e, a, q, r);
    let e = 2 * e;
    let a = r;
    let q = 1064530964538703407001942370520884335413995043502028819445462040550319044167int;
    let r = 10072766611918206976147214106067832423153699208746116979664302761793260837610int;
    lemma_power_square(b, n, e, a, q, r);
    let e = 2 * e;
    let a = r;
    let q = 2544147097439338845093909756416136135912689671651124309857454903797576970104int;
    let r = 4301868005267308830003419153560657817567680825676337750832894383260338449182int;
    lemma_power_times(b, n, e, a, q, r);
    let e = e + 1;
    let a = r;
    let q = 845479851585156706991240204478112823133787649808992275825752727543791961067int;
    let r = 16627125642895406951700362418014340208974338117922230088259842482881292325785int;
    lemma_power_square(b, n, e, a, q, r);
    let e = 2 * e;
    let a = r;
    let q = 12630584773906927976304765989489697471135684435145047122473789289073491640787int;
    let r = 19518800194741021491913766281424152272566139940670298306383268410547147935646int;
    lemma_power_square(b, n, e, a, q, r);
    let e = 2 * e;
    let a = r;
    let q = 4929995975702649478708889196152976414741195676183914675415254855684440212340int;
    let r = 11534581768237714377622514049794538710906990294294658400288690392502833010030int;
    lemma_power_times(b, n, e, a, q, r);
    let e = e + 1;
    let a = r;
    let q = 6078449391629120584615779304819517421483850580583829057530314016112043292359int;
    let r = 12151402870741816434567811098261945984065308526632669938681537232618579510397int;
    lemma_power_square(b, n, e, a, q, r);
    let e = 2 * e;
    let a = r;
    let q = 3069162379562624764777460242951805736053302225552711067378006900237910273076int;
    let r = 11960632236298039036947725948507520484244680601363481687727423224489076901903int;
    lemma_power_times(b, n, e, a, q, r);
    let e = e + 1;
    let a = r;
    let q = 6535779245945050750286952108655067984032889774734986984187867170365803074064int;
    let r = 7173921450792030977694620400546283310885073516690871106311662956170814643921int;
    lemma_power_square(b, n, e, a, q, r);
    let e = 2 * e;
    let a = r;
    let q = 2351269093799552104269201875790528611438350550762124747860677131283387312194int;
    let r = 1900557365325349656475805831663481809723224066684832735808122707485762600543int;
    lemma_power_square(b, n, e, a, q, r);
    let e = 2 * e;
    let a = r;
    let q = 480036686126358659551574771773099384148595103498708136350995707316657454717int;
    let r = 19410191403093593233795208203520552304041316335862483015343622037809534415716int;
    lemma_power_times(b, n, e, a, q, r);
    let e = e + 1;
    let a = r;
    let q = 17212689593711071613993785683384314677508585838726420567200309548754960529969int;
    let r = 11824789745985513135722564570471578015451614670447876613771248850982574146783int;
    lemma_power_square(b, n, e, a, q, r);
    let e = 2 * e;
    let a = r;
    let q = 6388162510598757224327778991140130806107315446762220672095802702625921637215int;
    let r = 5100606016700357910044392088516468926466857305589275760130717603441637662434int;
    lemma_power_square(b, n, e, a, q, r);
    let e = 2 * e;
    let a = r;
    let q = 1288294715099988556422853934836838426266935579929535052323110159853457397042int;
    let r = 6341310577990807432600905929758526058773553824922923530000360212842548020076int;
    lemma_power_times(b, n, e, a, q, r);
    let e = e + 1;
    let a = r;
}

/// A power of the base of the certificate, as the power of a power.
proof fn lemma_node_field_order_tbab()
    ensures
        power_is(
            5int,
            561236996713827569801189890904032694578163189754257290864056517604507910144nat,
            21888242871839275222246405745257275088548364400416034343698204186575808495617int,
            6341310577990807432600905929758526058773553824922923530000360212842548020076int,
        ),
{
    lemma_node_field_order_tba();
    lemma_power_field_order_tbab();
    lemma_power_of_power(
        5int,
        335901825062728809143932669710702910076580447285758222401536nat,
        21888242871839275222246405745257275088548364400416034343698204186575808495617int,
        5528462210625215277565490606014948898394267164327525157484837536182327244735int,
        1670836401704629nat,
        6341310577990807432600905929758526058773553824922923530000360212842548020076int,
    );
    assert(335901825062728809143932669710702910076580447285758222401536nat * 1670836401704629nat
        == 561236996713827569801189890904032694578163189754257290864056517604507910144nat);
}

/// A power of a base, computed from the bits of the exponent.
proof fn lemma_power_field_order_tbaba()
    ensures
        power_is(
            6341310577990807432600905929758526058773553824922923530000360212842548020076int,
            3nat,
            21888242871839275222246405745257275088548364400416034343698204186575808495617int,
            20846111736645777009767703653665533493788639406277865704073555848150445038125int,
        ),
{
    let n = 21888242871839275222246405745257275088548364400416034343698204186575808495617int;
    let b = 6341310577990807432600905929758526058773553824922923530000360212842548020076int;
    lemma_power_one(b, n);
    let e = 1nat;
    let a = 6341310577990807432600905929758526058773553824922923530000360212842548020076int;
    let q = 1837160711437183722111878557066446821144542038127161039109343120629121110424int;
    let r = 6828363102210551833524686277759077503063390714517544995174978299847722034168int;
    lemma_power_square(b, n, e, a, q, r);
    let e = 2 * e;
    let a = r;
    let q = 1978266205466831121761135272166845779572387954341343055993571669869740849779int;
    let r = 20846111736645777009767703653665533493788639406277865704073555848150445038125int;
    lemma_power_times(b, n, e, a, q, r);
    let e = e + 1;
    let a = r;
}

/// A power of the base of the certificate, as the power of a power.
proof fn lemma_node_field_order_tbaba()
    ensures
        power_is(
            5int,
            1683710990141482709403569672712098083734489569262771872592169552813523730432nat,
            21888242871839275222246405745257275088548364400416034343698204186575808495617int,
            20846111736645777009767703653665533493788639406277865704073555848150445038125int,
        ),
{
    lemma_node_field_order_tbab();
    lemma_power_field_order_tbaba();
    lemma_power_of_power(
        5int,
        561236996713827569801189890904032694578163189754257290864056517604507910144nat,
        21888242871839275222246405745257275088548364400416034343698204186575808495617int,
        6341310577990807432600905929758526058773553824922923530000360212842548020076int,
        3nat,
        20846111736645777009767703653665533493788639406277865704073555848150445038125int,
    );
    assert(561236996713827569801189890904032694578163189754257290864056517604507910144nat * 3nat
        == 1683710990141482709403569672712098083734489569262771872592169552813523730432nat);
}

/// A power of a base, computed from the bits of the exponent.
proof fn lemma_power_field_order_tbabb()
    ensures
        power_is(
            6341310577990807432600905929758526058773553824922923530000360212842548020076int,
            13nat,
            21888242871839275222246405745257275088548364400416034343698204186575808495617int,
            4407920970296243842393367215006156084916469457145843978461int,
        ),
{
    let n = 21888242871839275222246405745257275088548364400416034343698204186575808495617int;
    let b = 6341310577990807432600905929758526058773553824922923530000360212842548020076int;
    lemma_power_one(b, n);
    let e = 1nat;
    let a = 6341310577990807432600905929758526058773553824922923530000360212842548020076int;
    let q = 1837160711437183722111878557066446821144542038127161039109343120629121110424int;
    let r = 6828363102210551833524686277759077503063390714517544995174978299847722034168int;
    lemma_power_square(b, n, e, a, q, r);
    let e = 2 * e;
    let a = r;
    let q = 1978266205466831121761135272166845779572387954341343055993571669869740849779int;
    let r = 20846111736645777009767703653665533493788639406277865704073555848150445038125int;
    lemma_power_times(b, n, e, a, q, r);
    let e = e + 1;
    let a = r;
    let q = 19853597983226534906305262392680048075676871889097969176949310080840560980928int;
    let r = 2813847780979723574988245613652680993090845345239261844935281625931194923049int;
    lemma_power_square(b, n, e, a, q, r);
    let e = 2 * e;
    let a = r;
    let q = 361734808083257737738038008644309994227367747699155165461950614699267660161int;
    let r = 12163323927653410661690091626265305443273938627752091234991981747308017442064int;
    lemma_power_square(b, n, e, a, q, r);
    let e = 2 * e;
    let a = r;
    let q = 3523874215832652310123850953883791276404569656772838596381657104083972121059int;
    let r = 4407920970296243842393367215006156084916469457145843978461int;
    lemma_power_times(b, n, e, a, q, r);
    let e = e + 1;
    let a = r;
}

/// A power of the base of the certificate, as the power of a power.
proof fn lemma_node_field_order_tbabb()
    ensures
        power_is(
            5int,
            7296080957279758407415468581752425029516121466805344781232734728858602831872nat,
            21888242871839275222246405745257275088548364400416034343698204186575808495617int,
            4407920970296243842393367215006156084916469457145843978461int,
        ),
{
    lemma_node_field_order_tbab();
    lemma_power_field_order_tbabb();
    lemma_power_of_power(
        5int,
        561236996713827569801189890904032694578163189754257290864056517604507910144nat,
        21888242871839275222246405745257275088548364400416034343698204186575808495617int,
        6341310577990807432600905929758526058773553824922923530000360212842548020076int,
        13nat,
        4407920970296243842393367215006156084916469457145843978461int,
    );
    assert(561236996713827569801189890904032694578163189754257290864056517604507910144nat * 13nat
        == 7296080957279758407415468581752425029516121466805344781232734728858602831872nat);
}

/// The power of a base with the leading bits of an exponent.
proof fn lemma_power_field_order_tbb_part_1()
    ensures
        power_is(
            16160323223625149218691898021878502538467640817267864944299671648961520112051int,
            7585927nat,
            21888242871839275222246405745257275088548364400416034343698204186575808495617int,
            4946408636275455973074673150826837414210324890172926954269943514364668246804int,
        ),
{
    let n = 21888242871839275222246405745257275088548364400416034343698204186575808495617int;
    let b = 16160323223625149218691898021878502538467640817267864944299671648961520112051int;
    lemma_power_one(b, n);
    let e = 1nat;
    let a = 16160323223625149218691898021878502538467640817267864944299671648961520112051int;
    let q = 11931339039920536039738201280318469992352814642651190015259779645443578143844int;
    let r = 20640289568196827730283216898595579116222031173001105907681275330172725894853int;
    lemma_power_square(b, n, e, a, q, r);
    let e = 2 * e;
    let a = r;
    let q = 15238945985948413525468743551647872050995706342294978979942662819158496152103int;
    let r = 20038648207760680709027109921756382587075883563726964848193552962654163340952int;
    lemma_power_times(b, n, e, a, q, r);
    let e = e + 1;
    let a = r;
    let q = 18345347515812181682555352924771030193548430700557233196791086466296219297086int;
    let r = 7124020036689852071772499314663163786511386793698395875663266947667748394242int;
    lemma_power_square(b, n, e, a, q, r);
    let e = 2 * e;
    let a = r;
    let q = 5259739994598104283382302123555060732213512298264806032308686515258765832553int;
    let r = 18372828112896999298737113929151440023908090869517844792388303594019706790141int;
    lemma_power_times(b, n, e, a, q, r);
    let e = e + 1;
    let a = r;
    let q = 15422015135822228844491106941425222970364833748475113557752906241184546268613int;
    let r = 9792432539928153798104392664475544367220516940700492958895722068879099630660int;
    lemma_power_square(b, n, e, a, q, r);
    let e = 2 * e;
    let a = r;
    let q = 4380969985142802094935402723207211302330931807449747241384721443168465370541int;
    let r = 6447392452838321498048162051521605006549185188423955048236478854774732616803int;
    lemma_power_square(b, n, e, a, q, r);
    let e = 2 * e;
    let a = r;
    let q = 1899141456183207267131998761315377659832487013891746540634975823902709812230int;
    let r = 1392076757537436634405684077357882032392309207210370817355353532563189944899int;
    lemma_power_square(b, n, e, a, q, r);
    let e = 2 * e;
    let a = r;
    let q = 1027785121246265371182307365135568388138169365426483140191583293826670062273int;
    let r = 6742781348245870508578816262347480676516910975651176553215750121255158320408int;
    lemma_power_times(b, n, e, a, q, r);
    let e = e + 1;
    let a = r;
    let q = 2077147104793248031964587084823489990720285803882240211563492131026774394767int;
    let r = 1026534666186615425203201410177876877970386885453450286990998748589642050225int;
    lemma_power_square(b, n, e, a, q, r);
    let e = 2 * e;
    let a = r;
    let q = 757901495472480656492368137073601158368517055101285131166174830538123836452int;
    let r = 18319360453181540099241189585474171722872347855832129451605138245248702930591int;
    lemma_power_times(b, n, e, a, q, r);
    let e = e + 1;
    let a = r;
    let q = 15332385033307668444592419554773549834921806426115981843928428204504939403741int;
    let r = 17815567950613047947243709803333735991123468472913849645550413134701571706084int;
    lemma_power_square(b, n, e, a, q, r);
    let e = 2 * e;
    let a = r;
    let q = 13153423880579006823779821969128580207647144925674414247549431385328523642490int;
    let r = 17059623782845493975579220277999076077716822257883630209694382669914878451954int;
    lemma_power_times(b, n, e, a, q, r);
    let e = e + 1;
    let a = r;
    let q = 13296214105274691912163433662523300889033102433561244869958720395912736173047int;
    let r = 19964287706926120679326839294013361883720356133051773248933126147336633383117int;
    lemma_power_square(b, n, e, a, q, r);
    let e = 2 * e;
    let a = r;
    let q = 14739846599950561960762325359901250757889139670864565987363522630905123786926int;
    let r = 11179585059216979456135414265039954550237794202312261830205881524742938739625int;
    lemma_power_times(b, n, e, a, q, r);
    let e = e + 1;
    let a = r;
    let q = 5710057350335182343981934318869705108264245049111143828759336613121491171064int;
    let r = 16855950416796802830346760576936960308836670490442736061905700269474103914137int;
    lemma_power_square(b, n, e, a, q, r);
    let e = 2 * e;
    let a = r;
    let q = 12980624626522949843853621373191682810145031215925248090845278525597421724598int;
    let r = 5678284617505260866585510537523021648160347572654589307172130463335804367803int;
    lemma_power_square(b, n, e, a, q, r);
    let e = 2 * e;
    let a = r;
    let q = 1473070103716712156505159631867280952723849504784667414003278941579095527832int;
    let r = 19205438893502472961124430039915397177260590678768407911413007965096029534465int;
    lemma_power_square(b, n, e, a, q, r);
    let e = 2 * e;
    let a = r;
    let q = 16851461547267773772981933082771144497632298784936194606447474894898255705878int;
    let r = 17692830387903662370616979115546450852522345657772421401651487352567018699499int;
    lemma_power_square(b, n, e, a, q, r);
    let e = 2 * e;
    let a = r;
    let q = 14301570435234426642213115572104201727786672573211995858352499522313085997487int;
    let r = 3357623744604271849081346047705457780381587836225966562466626009799950336522int;
    lemma_power_square(b, n, e, a, q, r);
    let e = 2 * e;
    let a = r;
    let q = 515054464460220311800144669117812332655622967894542104140930258878624477608int;
    let r = 11654789128610058302228627433105319530122270376125535975072157359926064412348int;
    lemma_power_square(b, n, e, a, q, r);
    let e = 2 * e;
    let a = r;
    let q = 6205802376541019419690087943673624339936698949142455133901238482569369622306int;
    let r = 11212896010979471316346795402453839798815486989268857440727861701409228440302int;
    lemma_power_square(b, n, e, a, q, r);
    let e = 2 * e;
    let a = r;
    let q = 8278600747959387077093710594445001373572172006350071005465258337729221250247int;
    let r = 13911989202381845161075721265223267140033893289314423568664858272962044612003int;
    lemma_power_times(b, n, e, a, q, r);
    let e = e + 1;
    let a = r;
    let q = 8842347222681632194736832613179391566273266040573811275307361840601933897192int;
    let r = 19249781207185138398948690262882908182077723966947882687160160320999351064545int;
    lemma_power_square(b, n, e, a, q, r);
    let e = 2 * e;
    let a = r;
    let q = 16929366084531223068751086086778195880192505449346016854002763019682537387402int;
    let r = 2692821198945916178837447298450330158594567553531597412096180269921608039991int;
    lemma_power_square(b, n, e, a, q, r);
    let e = 2 * e;
    let a = r;
    let q = 331286803237266613537558336650672454567272910442270689841329749154962769199int;
    let r = 3145917684028715234007662675929615463424203060889130153514898377932081179298int;
    lemma_power_square(b, n, e, a, q, r);
    let e = 2 * e;
    let a = r;
    let q = 452151327661733161646729812873164865233534869702289824061923961108096217776int;
    let r = 6139472891294446370329886826984147152570783016569544756078413681064250285012int;
    lemma_power_square(b, n, e, a, q, r);
    let e = 2 * e;
    let a = r;
    let q = 1722071872266831475106261554381667274583071273778902687105859446625260342409int;
    let r = 20313208260650000091163621711045692765700336507278469570411808080626636118791int;
    lemma_power_square(b, n, e, a, q, r);
    let e = 2 * e;
    let a = r;
    let q = 14997458367170062667074509436963977172768953565880328213105226276091345079515int;
    let r = 4928241379025438930504640501936425398849108469788258326640785903578672664586int;
    lemma_power_times(b, n, e, a, q, r);
    let e = e + 1;
    let a = r;
    let q = 1109616849198350897318234259438040440750954423973106929594349266556339394268int;
    let r = 4396407187580955476209769602037203147087147040004164164679192419131145628040int;
    lemma_power_square(b, n, e, a, q, r);
    let e = 2 * e;
    let a = r;
    let q = 3245914328983636350442929458470672623800802691546273955648016867442331035304int;
    let r = 18185601519854738294202834519874639477393182018368019023534587770913211247472int;
    lemma_power_times(b, n, e, a, q, r);
    let e = e + 1;
    let a = r;
    let q = 15109303408928813664022073715603207103708020755589326726336149966031644827977int;
    let r = 7714441195850043851524840491717240882679735999147941541725645853871302913975int;
    lemma_power_square(b, n, e, a, q, r);
    let e = 2 * e;
    let a = r;
    let q = 5695654235223229504318205809882456364083386555823028181250309699213417023713int;
    let r = 4946408636275455973074673150826837414210324890172926954269943514364668246804int;
    lemma_power_times(b, n, e, a, q, r);
    let e = e + 1;
    let a = r;
}

/// The power of a base with the leading bits of an exponent.
proof fn lemma_power_field_order_tbb_part_2()
    ensures
        power_is(
            16160323223625149218691898021878502538467640817267864944299671648961520112051int,
            7954421346005nat,
            21888242871839275222246405745257275088548364400416034343698204186575808495617int,
            9761400488999082819533490999873362390323300577171453184524797565420087083345int,
        ),
{
    let n = 21888242871839275222246405745257275088548364400416034343698204186575808495617int;
    let b = 16160323223625149218691898021878502538467640817267864944299671648961520112051int;
    lemma_power_field_order_tbb_part_1();
    let e = 7585927nat;
    let a = 4946408636275455973074673150826837414210324890172926954269943514364668246804int;
    let q = 1117812815778777526375883906103294976948371531107243281715762880113910049235int;
    let r = 6293051108547090238513758206192447884357310437907184735740219983439304511421int;
    lemma_power_square(b, n, e, a, q, r);
    let e = 2 * e;
    let a = r;
    let q = 1809304314040533703804384235232233716014101015208915672586286753680512851501int;
    let r = 14652104034269932958156046051773103598344340901329380365994979383017789068124int;
    lemma_power_square(b, n, e, a, q, r);
    let e = 2 * e;
    let a = r;
    let q = 10817804722215567075297499161786325870088600973266947653022245389335403614382int;
    let r = 15199952640300598254923435359464333389516318911056171224127325974067547198630int;
    lemma_power_times(b, n, e, a, q, r);
    let e = e + 1;
    let a = r;
    let q = 10555372654633144277234167845117686029629826704478704249636709499199654321739int;
    let r = 7226268897451530644681503815029479240593272206149852777268035301794584558937int;
    lemma_power_square(b, n, e, a, q, r);
    let e = 2 * e;
    let a = r;
    let q = 2385708276540490808071127641581392812148044150443974024845215441456560874434int;
    let r = 2014582269519345430906067341167093493378147267561749397626658288683250214191int;
    lemma_power_square(b, n, e, a, q, r);
    let e = 2 * e;
    let a = r;
    let q = 1487387581846638309959656976849101238035856216408988563037105256624400801242int;
    let r = 12263836829377810077484807664684136809742994989291719644079259974594625159427int;
    lemma_power_times(b, n, e, a, q, r);
    let e = e + 1;
    let a = r;
    let q = 6871346167814396184852593621455322467028289412916071943834655393578867385830int;
    let r = 10021964112924058288369061129855079268010791549187863699793074562067364061219int;
    lemma_power_square(b, n, e, a, q, r);
    let e = 2 * e;
    let a = r;
    let q = 4588754121051916343062935199648322124694253618740292440703004877979371890737int;
    let r = 19627614422885420153444338936052736886190564497982195623114334654068312366232int;
    lemma_power_square(b, n, e, a, q, r);
    let e = 2 * e;
    let a = r;
    let q = 14491277122596261599539439368579415919765024526867555308505990638909966879193int;
    let r = 19690734537683385651853640409438525287327887149349793543657424410443879664751int;
    lemma_power_times(b, n, e, a, q, r);
    let e = e + 1;
    let a = r;
    let q = 17713848886990931489746257276594985759295934649619042763219331521664316506227int;
    let r = 1216520323707436372770005816117033490572543238396910563373102856349869184942int;
    lemma_power_square(b, n, e, a, q, r);
    let e = 2 * e;
    let a = r;
    let q = 898169933252814208149359742380351058230352789401583707891210716031653338658int;
    let r = 7144158783483711147468351889721919894335223376588416300233384506705472274056int;
    lemma_power_times(b, n, e, a, q, r);
    let e = e + 1;
    let a = r;
    let q = 2331799999774885429698081742077280017548585784815342269059183440397964296955int;
    let r = 11099382256998754376199193244081971831434953850601492120685222884808366744901int;
    lemma_power_square(b, n, e, a, q, r);
    let e = 2 * e;
    let a = r;
    let q = 5628422857344991806449783735863251982699901876811582357263846314504456365230int;
    let r = 587423194739079017253997025770128877526870395394578989136103944332203302891int;
    lemma_power_square(b, n, e, a, q, r);
    let e = 2 * e;
    let a = r;
    let q = 433700811509696212673487970341206588298097132571658219613445545797782674248int;
    let r = 8738415822027586464489533002133991966611277578634397862273600650418565468425int;
    lemma_power_times(b, n, e, a, q, r);
    let e = e + 1;
    let a = r;
    let q = 3488626817865965812621317928763755455825316541284470160487650543523295910874int;
    let r = 9312511443172757563107580044969189842503289937646929488594884059954020341367int;
    lemma_power_square(b, n, e, a, q, r);
    let e = 2 * e;
    let a = r;
    let q = 6875526547587768176199863584756556533253403975370480456750208333418036337652int;
    let r = 19135175688254259296893511908679155498936466237764331541802840925492736442433int;
    lemma_power_times(b, n, e, a, q, r);
    let e = e + 1;
    let a = r;
    let q = 16728384766391655191267788318983907124962204186422091663844140999917923071389int;
    let r = 16411786027251640837506774654568962627639232612023388577881104185892938357476int;
    lemma_power_square(b, n, e, a, q, r);
    let e = 2 * e;
    let a = r;
    let q = 12116996710530146163613524002764350220645772171646369912895313173011237854093int;
    let r = 9243619106649495125180230391721962606527495410907529836555715519705737532895int;
    lemma_power_times(b, n, e, a, q, r);
    let e = e + 1;
    let a = r;
    let q = 3903670782945569782335045381311018995951070998653515026843179518904842455701int;
    let r = 18956476718878548634505118593232189092811984855732021637493550167136431918508int;
    lemma_power_square(b, n, e, a, q, r);
    let e = 2 * e;
    let a = r;
    let q = 16417398678251613826020046664616022494916767284468972289138275898365954593891int;
    let r = 1444597622788602843911846860710827090436789788887946253305519095266664470317int;
    lemma_power_square(b, n, e, a, q, r);
    let e = 2 * e;
    let a = r;
    let q = 1066561836371959119931419215092331792744258213469351404533529790006548070654int;
    let r = 6171886078359703049324990206584251755897278140966475467094914853748838166649int;
    lemma_power_times(b, n, e, a, q, r);
    let e = e + 1;
    let a = r;
    let q = 1740303138414939295085190184515803778832159529696674655538415043168224529295int;
    let r = 10853258813394199518159538338272174377982505620974448857411166484003600289186int;
    lemma_power_square(b, n, e, a, q, r);
    let e = 2 * e;
    let a = r;
    let q = 8013076768248156716495086959745010142919711304418153301779128907135427353147int;
    let r = 13162692931782893889329433927312079360576340983846551741899253231572462923787int;
    lemma_power_times(b, n, e, a, q, r);
    let e = e + 1;
    let a = r;
    let q = 7915504512210694561172120376526198212755290597252099772493477517035917041643int;
    let r = 14770645961925212561945915699910721511014584107517972945904012402291598442638int;
    lemma_power_square(b, n, e, a, q, r);
    let e = 2 * e;
    let a = r;
    let q = 9967542091431688079982155293166375692075606804385913127560556278719872593237int;
    let r = 16255623991252117935210194070584370287585884260909042809202566145201438056815int;
    lemma_power_square(b, n, e, a, q, r);
    let e = 2 * e;
    let a = r;
    let q = 12001700613361081112255499952988977509002825239498873929379331425700716179841int;
    let r = 19956486178135706151418061500859598901026076791685615514598329455357071920668int;
    lemma_power_times(b, n, e, a, q, r);
    let e = e + 1;
    let a = r;
    let q = 18195217538019554640159383387898030602596094146997862617830602406661606227479int;
    let r = 20823083982473440127981193345394310985763518877183770478490540278012809106681int;
    lemma_power_square(b, n, e, a, q, r);
    let e = 2 * e;
    let a = r;
    let q = 19809759471327829964852370272102677770769474391290142279477626732846404988599int;
    let r = 20639772593645175043609114839187897782331431271454241342767575624051012365178int;
    lemma_power_square(b, n, e, a, q, r);
    let e = 2 * e;
    let a = r;
    let q = 15238564298121665005715841532455796703634059666599989008891239325834232140419int;
    let r = 4376430336587396296802896978457699907912405016403258427810647020922800516555int;
    lemma_power_times(b, n, e, a, q, r);
    let e = e + 1;
    let a = r;
    let q = 875042487565061766683433826100777175373789981102072186515944933061255090299int;
    let r = 13428381622645242830078176498832641619852172476632574914318773885224148348542int;
    lemma_power_square(b, n, e, a, q, r);
    let e = 2 * e;
    let a = r;
    let q = 8238278150476499346818928765886462637158057567415743694014473104572225661668int;
    let r = 4021253696290579981273171072590926927931855041035369382519208679612410616608int;
    lemma_power_square(b, n, e, a, q, r);
    let e = 2 * e;
    let a = r;
    let q = 2968934504096739518865186168235279986394698254119929431124167345235842061839int;
    let r = 9761400488999082819533490999873362390323300577171453184524797565420087083345int;
    lemma_power_times(b, n, e, a, q, r);
    let e = e + 1;
    let a = r;
}

/// A power of a base, computed from the bits of the exponent.
proof fn lemma_power_field_order_tbb()
    ensures
        power_is(
            16160323223625149218691898021878502538467640817267864944299671648961520112051int,
            65162619666480531nat,
            21888242871839275222246405745257275088548364400416034343698204186575808495617int,
            19460668994497479287137176081640516279625570651845874809712732028301846747032int,
        ),
{
    let n = 21888242871839275222246405745257275088548364400416034343698204186575808495617int;
    let b = 16160323223625149218691898021878502538467640817267864944299671648961520112051int;
    lemma_power_field_order_tbb_part_2();
    let e = 7954421346005nat;
    let a = 9761400488999082819533490999873362390323300577171453184524797565420087083345int;
    let q = 4353247543192338163542715152067529834896703626858100328444424049659486542426int;
    let r = 16952774408170215523890132831487296891894022715492502514345625100337070842183int;
    lemma_power_square(b, n, e, a, q, r);
    let e = 2 * e;
    let a = r;
    let q = 12516414203613508151259157434795022175383424751983900130052619747956208642461int;
    let r = 2449821569647925940595930687482409420125450312118703840408251072480858853896int;
    lemma_power_times(b, n, e, a, q, r);
    let e = e + 1;
    let a = r;
    let q = 274194039158516946220312773426834999246176032995590956695539956353330814818int;
    let r = 3191443301923318594456969528729268147679465767316970394648304458693282726110int;
    lemma_power_square(b, n, e, a, q, r);
    let e = 2 * e;
    let a = r;
    let q = 2356276637231067653002077276774711251240499976804285900258913095000132301762int;
    let r = 17220637301219823551845087069092094893828401432085126725633276304765244974456int;
    lemma_power_times(b, n, e, a, q, r);
    let e = e + 1;
    let a = r;
    let q = 13548385349912939742457768150234633099411064375811526338843482708198951388966int;
    let r = 8680363655052668487171722241353458711412121978850098184173449684739019333914int;
    lemma_power_square(b, n, e, a, q, r);
    let e = 2 * e;
    let a = r;
    let q = 6408805091647439582207333358386824113365453839850386651385910547253982563026int;
    let r = 2278965188963161496965575547260120033796887534861447285532248044893717140572int;
    lemma_power_times(b, n, e, a, q, r);
    let e = e + 1;
    let a = r;
    let q = 237281830383375666446417288504457961523632865096880366363761946970749238649int;
    let r = 15094816112422849029640574030433260852655752679294194898187575564363204985751int;
    lemma_power_square(b, n, e, a, q, r);
    let e = 2 * e;
    let a = r;
    let q = 10409856780281324683245248502293176606693132422479631241307111538390959355308int;
    let r = 8220154653889575342952620770795913379760784395691580347201672341092449348965int;
    lemma_power_square(b, n, e, a, q, r);
    let e = 2 * e;
    let a = r;
    let q = 6069027876419914850639136455751462266658358449938911805033922934700406280509int;
    let r = 3921117939577270597146826304236593967715958617671059201839356434283001848162int;
    lemma_power_times(b, n, e, a, q, r);
    let e = e + 1;
    let a = r;
    let q = 702439477947126798427959701716622362209709539887721121841913124591671987425int;
    let r = 16851779105493530944822299649174296200245907242168661879008699143197911162019int;
    lemma_power_square(b, n, e, a, q, r);
    let e = 2 * e;
    let a = r;
    let q = 12441848294194488178154432282891364399486370661873435469288420989803891407079int;
    let r = 883239860682091690597868374781682481877943752385285761899332629060161118226int;
    lemma_power_times(b, n, e, a, q, r);
    let e = e + 1;
    let a = r;
    let q = 35640716162803051579331163808509470355400835183655913930382907028272134778int;
    let r = 5860006153436031705517165118392509419479290838911993143279817732801503119050int;
    lemma_power_square(b, n, e, a, q, r);
    let e = 2 * e;
    let a = r;
    let q = 1568863810556876557072903349067511034531182153252054206542399006395520198521int;
    let r = 5655272769004909700616580202572147251090794756976590912727982942364274520043int;
    lemma_power_square(b, n, e, a, q, r);
    let e = 2 * e;
    let a = r;
    let q = 1461154752307488126003924133325596333246563857543027327816892534709789230262int;
    let r = 2514305603955146076117711520988975497343529278441525294130169872247377960195int;
    lemma_power_square(b, n, e, a, q, r);
    let e = 2 * e;
    let a = r;
    let q = 1856338650881978553422459142158739979596762783125856474173960967559512661653int;
    let r = 7575934828024612468057774532437741187591236658763418283830257755566763335044int;
    lemma_power_times(b, n, e, a, q, r);
    let e = e + 1;
    let a = r;
    let q = 2622174326853739549360717495370764333076225411260810550564443778528880679865int;
    let r = 10259542345168197905415907951594586356052991343943853968750385840235565830231int;
    lemma_power_square(b, n, e, a, q, r);
    let e = 2 * e;
    let a = r;
    let q = 4808892598122678318434006427649124966822449578990651681257107505852580825529int;
    let r = 17086191616858525396375634308956708911931773936770097989366865933666875306968int;
    lemma_power_square(b, n, e, a, q, r);
    let e = 2 * e;
    let a = r;
    let q = 13337660116317729918418190079676958738328071912365988171655483699487482890609int;
    let r = 9656760142947581145399009531333529708538447207153904395738990894069362392271int;
    lemma_power_square(b, n, e, a, q, r);
    let e = 2 * e;
    let a = r;
    let q = 7129689035195727016774001657297376876092839096412106831882253047958464667698int;
    let r = 2464002701721598899659873043549577969357672362315076080995954154304141878155int;
    lemma_power_times(b, n, e, a, q, r);
    let e = e + 1;
    let a = r;
    let q = 277377647426532088868639061791487095396938590812198366816922484502513224246int;
    let r = 20629685830583549045108204869726672370786415576900905074162463722913437074243int;
    lemma_power_square(b, n, e, a, q, r);
    let e = 2 * e;
    let a = r;
    let q = 15231117133344189126487774158414301770649253195054421322083450507698171700033int;
    let r = 19460668994497479287137176081640516279625570651845874809712732028301846747032int;
    lemma_power_times(b, n, e, a, q, r);
    let e = e + 1;
    let a = r;
}

/// A power of the base of the certificate, as the power of a power.
proof fn lemma_node_field_order_tbb()
    ensures
        power_is(
            5int,
            231379789631496563523034866787822426961131583851843263922176nat,
            21888242871839275222246405745257275088548364400416034343698204186575808495617int,
            19460668994497479287137176081640516279625570651845874809712732028301846747032int,
        ),
{
    lemma_node_field_order_tb();
    lemma_power_field_order_tbb();
    lemma_power_of_power(
        5int,
        3550805520339104461864818922942441294135296nat,
        21888242871839275222246405745257275088548364400416034343698204186575808495617int,
        16160323223625149218691898021878502538467640817267864944299671648961520112051int,
        65162619666480531nat,
        19460668994497479287137176081640516279625570651845874809712732028301846747032int,
    );
    assert(3550805520339104461864818922942441294135296nat * 65162619666480531nat
        == 231379789631496563523034866787822426961131583851843263922176nat);
}

/// The power of a base with the leading bits of an exponent.
proof fn lemma_power_field_order_tbba_part_1()
    ensures
        power_is(
            19460668994497479287137176081640516279625570651845874809712732028301846747032int,
            910323nat,
            21888242871839275222246405745257275088548364400416034343698204186575808495617int,
            18959442016977815777580149998354498689279248749038151041990542614843517772564int,
        ),
{
    let n = 21888242871839275222246405745257275088548364400416034343698204186575808495617int;
    let b = 19460668994497479287137176081640516279625570651845874809712732028301846747032int;
    lemma_power_one(b, n);
    let e = 1nat;
    let a = 19460668994497479287137176081640516279625570651845874809712732028301846747032int;
    let q = 17302331664121003130848192906486638367959456383362938805477395000576641917355int;
    let r = 12715499931178492366763078469735486984972140912091768114312062513915207075989int;
    lemma_power_square(b, n, e, a, q, r);
    let e = 2 * e;
    let a = r;
    let q = 11305253542237702948214599573187983605695650121261408850247419260657846448875int;
    let r = 2031633249487378479289476788381005923010981712701071563698617612248632133773int;
    lemma_power_times(b, n, e, a, q, r);
    let e = e + 1;
    let a = r;
    let q = 188573093079709912333258939848997078591043326331151723913810642548842656109int;
    let r = 18243620850081301074948738755974210891319944775082680792218065563953202441276int;
    lemma_power_square(b, n, e, a, q, r);
    let e = 2 * e;
    let a = r;
    let q = 15205866623022965422697783142229757460565914430925319078947980020571671950552int;
    let r = 157000636728832159382653165287118138566573652612858235707101984743095777592int;
    lemma_power_square(b, n, e, a, q, r);
    let e = 2 * e;
    let a = r;
    let q = 139588062924687626572797467227370216824410926251542511246125252676391406886int;
    let r = 10277840194420334865079882165756530863676481624090079599776107536065963488282int;
    lemma_power_times(b, n, e, a, q, r);
    let e = e + 1;
    let a = r;
    let q = 4826061172683148870904788763963928203817036259646178527744574013375860888481int;
    let r = 4543460138040778636474621433346664799132273732502109202787092845815937023747int;
    lemma_power_square(b, n, e, a, q, r);
    let e = 2 * e;
    let a = r;
    let q = 4039555589446708452230896674826130123118255687461092137169043372981743122890int;
    let r = 19815305834463203739823697445021959810783524096964967496032242619377228395774int;
    lemma_power_times(b, n, e, a, q, r);
    let e = e + 1;
    let a = r;
    let q = 17938687340612339429287375779622505969191779883795865632015941885868782019602int;
    let r = 6728795497284126264123172474723952901991667015550895275094107047098955974642int;
    lemma_power_square(b, n, e, a, q, r);
    let e = 2 * e;
    let a = r;
    let q = 5982520509802253571376942785550197855562381872285755226257515276976420221958int;
    let r = 6016551073543455345517453101381695276208792793963927170603986949415570604458int;
    lemma_power_times(b, n, e, a, q, r);
    let e = e + 1;
    let a = r;
    let q = 1653805060210166716960697507277599502588679078590692471893925015316498274038int;
    let r = 3260624878895994008860823670136178482054748729451177154142087211389701582318int;
    lemma_power_square(b, n, e, a, q, r);
    let e = 2 * e;
    let a = r;
    let q = 2898996591684214818791480070487296421619956828303837963475401181838345010179int;
    let r = 11127850292578159137679114556069430462238553653695017507074931501722928294733int;
    lemma_power_times(b, n, e, a, q, r);
    let e = e + 1;
    let a = r;
    let q = 5657331785793842105005236072649468281354789059846174219488430977820584702677int;
    let r = 10830769010562241817485813437034488487735332041630950001795510885796712874580int;
    lemma_power_square(b, n, e, a, q, r);
    let e = 2 * e;
    let a = r;
    let q = 5359295309678651401697720790043747609837400608559229859536917778721127623769int;
    let r = 2622021688608218318956305864471702262612564332139523929628322871236948655927int;
    lemma_power_square(b, n, e, a, q, r);
    let e = 2 * e;
    let a = r;
    let q = 314095461010122855613152264874770064763856960066151672843731685123972767364int;
    let r = 5267642144969533484409841800397535832915203562589124050252195357270677585741int;
    lemma_power_square(b, n, e, a, q, r);
    let e = 2 * e;
    let a = r;
    let q = 1267714997952576667353498129177270287073195085881499640461222047218998516688int;
    let r = 18662216232802514334787162832008269433167007666841361811048634093104657162585int;
    lemma_power_square(b, n, e, a, q, r);
    let e = 2 * e;
    let a = r;
    let q = 16592433432724853110995465149389023261114026886973296383434365032320558162241int;
    let r = 14028190093856331726179617267327839681252236473205000233161439708140966800023int;
    lemma_power_times(b, n, e, a, q, r);
    let e = e + 1;
    let a = r;
    let q = 8990676796745201140089650434353924567484611093250345500031866600507888992424int;
    let r = 11860951917754417037936719118693417230120930935515982040052089544627122594921int;
    lemma_power_square(b, n, e, a, q, r);
    let e = 2 * e;
    let a = r;
    let q = 10545481452421071245150895246654315127246353854616314725848485234436624342048int;
    let r = 330692432096210759127535722828199325329926825719712341142340612749178220856int;
    lemma_power_times(b, n, e, a, q, r);
    let e = e + 1;
    let a = r;
    let q = 4996174671764212911000447835071002526235016224531384141727118044683126613int;
    let r = 19379077505067535894894732961833167331141719849195298399489846610466046817515int;
    lemma_power_square(b, n, e, a, q, r);
    let e = 2 * e;
    let a = r;
    let q = 17229789296153814049460746231747904835743958686127217574525504307993567567888int;
    let r = 18311297002349522514085930055745772166897440256407927965969799625088073918584int;
    lemma_power_times(b, n, e, a, q, r);
    let e = e + 1;
    let a = r;
    let q = 15318890596725133707632720458802405256730585503584284587151253528946239323731int;
    let r = 20424923467359960567761884298127545811811392266571753899754710901546502978029int;
    lemma_power_square(b, n, e, a, q, r);
    let e = 2 * e;
    let a = r;
    let q = 18159642926277313860294162261707065917721035426344607016810615520215612669179int;
    let r = 11290878260214026702877052284083987520154386719725928985493788995428324471485int;
    lemma_power_times(b, n, e, a, q, r);
    let e = e + 1;
    let a = r;
    let q = 5824310915838317164059916967386014859348544938418750247393425790053223208762int;
    let r = 5172024138162241692098354585947329448346947385625631027974052091747825109071int;
    lemma_power_square(b, n, e, a, q, r);
    let e = 2 * e;
    let a = r;
    let q = 4598407024888277284433336687679277484253629181059445181992825516078846042375int;
    let r = 16581189099799245586903166597262530875784458983698028253000880254628961756897int;
    lemma_power_times(b, n, e, a, q, r);
    let e = e + 1;
    let a = r;
    let q = 12560890957447530401979311785637524468058515037903201839143965403926526942829int;
    let r = 18862184941752674671375548996860284401536331834121163891486409370976270988116int;
    lemma_power_square(b, n, e, a, q, r);
    let e = 2 * e;
    let a = r;
    let q = 16770224079371176161102809356014403408014346677526009583815901309413473564973int;
    let r = 7675937947173711606915233269113719066474477132958920088745060017029895048371int;
    lemma_power_times(b, n, e, a, q, r);
    let e = e + 1;
    let a = r;
    let q = 2691857163402824927502590292824036209735792186627054532668921654315891897100int;
    let r = 11897088545034730936956269830893527371367582843619100911949989366353264742941int;
    lemma_power_square(b, n, e, a, q, r);
    let e = 2 * e;
    let a = r;
    let q = 6466517969356893599481109893597039550429844593186246222872772836696959706086int;
    let r = 12014039132368663711969758182812047845927212952591678131710253742124670104419int;
    lemma_power_square(b, n, e, a, q, r);
    let e = 2 * e;
    let a = r;
    let q = 6594276987842875835015483436204066774287285069800624309006398801972872898988int;
    let r = 18874137035238939877609975146102693832266427354317402557665807354014481591965int;
    lemma_power_square(b, n, e, a, q, r);
    let e = 2 * e;
    let a = r;
    let q = 16780850594093687164451645343689336872811634017023148242082012623696609503819int;
    let r = 6444886028553957285369798789475608455231346638395434600980819622956792536557int;
    lemma_power_times(b, n, e, a, q, r);
    let e = e + 1;
    let a = r;
    let q = 1897665160435953779773370114919563177156929313285659085058765456082700538404int;
    let r = 7156230656281078784473101685504328022822935124098551415614562818055007238981int;
    lemma_power_square(b, n, e, a, q, r);
    let e = 2 * e;
    let a = r;
    let q = 6362549833972079711093318407524541429893792846096184902574322545132582650084int;
    let r = 18959442016977815777580149998354498689279248749038151041990542614843517772564int;
    lemma_power_times(b, n, e, a, q, r);
    let e = e + 1;
    let a = r;
}

/// A power of a base, computed from the bits of the exponent.
proof fn lemma_power_field_order_tbba()
    ensures
        power_is(
            19460668994497479287137176081640516279625570651845874809712732028301846747032int,
            233042759nat,
            21888242871839275222246405745257275088548364400416034343698204186575808495617int,
            19321818016159037061311250724021617607548090886696614157910334987366532500238int,
        ),
{
    let n = 21888242871839275222246405745257275088548364400416034343698204186575808495617int;
    let b = 19460668994497479287137176081640516279625570651845874809712732028301846747032int;
    lemma_power_field_order_tbba_part_1();
    let e = 910323nat;
    let a = 18959442016977815777580149998354498689279248749038151041990542614843517772564int;
    let q = 16422535317241674275894427204532733368210137960066616677513053551332648207384int;
    let r = 9456550054021342617110152893509554082278596570124029895809957968859160098168int;
    lemma_power_square(b, n, e, a, q, r);
    let e = 2 * e;
    let a = r;
    let q = 4085587840368135383672813557339988051115033251227452390518403603396269769529int;
    let r = 21737273643555528987592962100186912249421956944978946114382623236058600301831int;
    lemma_power_square(b, n, e, a, q, r);
    let e = 2 * e;
    let a = r;
    let q = 19326443410598983626105856961907392637999545941111457452514395556206133484766int;
    let r = 11737746203487585870061480159017132181479083887158092104054169015380456144970int;
    lemma_power_times(b, n, e, a, q, r);
    let e = e + 1;
    let a = r;
    let q = 6294460763442268487563495363150379211287376183361117419099879585078451429134int;
    let r = 13501262083882019823013901104579753026862804364472686821276654087781431195222int;
    lemma_power_square(b, n, e, a, q, r);
    let e = 2 * e;
    let a = r;
    let q = 8327944774963696206408857372013378943469381641007332053559293783828109872745int;
    let r = 18021773358075278262465015672576357109666151763005652741067197782199715370619int;
    lemma_power_square(b, n, e, a, q, r);
    let e = 2 * e;
    let a = r;
    let q = 14838300034932871436077626147193331994453195385998047911424860411334413806728int;
    let r = 17896987533574932563512016116168692781870204846397051469322570416880655331985int;
    lemma_power_square(b, n, e, a, q, r);
    let e = 2 * e;
    let a = r;
    let q = 14633525617034670031089215487016552345750059831876313431693538449857993510007int;
    let r = 13439343128931895877137367906583008725351548564958234246595205692330458900906int;
    lemma_power_square(b, n, e, a, q, r);
    let e = 2 * e;
    let a = r;
    let q = 11948816982111662865647903799129982135796970433725232477933627309446600915499int;
    let r = 5177235056857065347067002139504814712014925006556680826034183016592008743109int;
    lemma_power_times(b, n, e, a, q, r);
    let e = e + 1;
    let a = r;
    let q = 1224573529766277346951459799634141691771936595872287639616433538639084285632int;
    let r = 10530002139156462424356731768900059715219095766632103088427005825270906910937int;
    lemma_power_square(b, n, e, a, q, r);
    let e = 2 * e;
    let a = r;
    let q = 9362144204143452092112443249093053283992723959204464152115949247428476080353int;
    let r = 16537863633234659081052988647100787623053361648856890706030146157891452776183int;
    lemma_power_times(b, n, e, a, q, r);
    let e = e + 1;
    let a = r;
    let q = 12495335288121422323442586145756061801278723314769153142573688579947375745957int;
    let r = 15413973586105290897599901268949141784211749016385767309283772317844552079020int;
    lemma_power_square(b, n, e, a, q, r);
    let e = 2 * e;
    let a = r;
    let q = 13704445788796024484531321455470845515424002596114540783280596618496878649106int;
    let r = 19321818016159037061311250724021617607548090886696614157910334987366532500238int;
    lemma_power_times(b, n, e, a, q, r);
    let e = e + 1;
    let a = r;
}

/// A power of the base of the certificate, as the power of a power.
proof fn lemma_node_field_order_tbba()
    ensures
        power_is(
            5int,
            53921384552563552462426805409431605981098090062873401459989056323584nat,
            21888242871839275222246405745257275088548364400416034343698204186575808495617int,
            19321818016159037061311250724021617607548090886696614157910334987366532500238int,
        ),
{
    lemma_node_field_order_tbb();
    lemma_power_field_order_tbba();
    lemma_power_of_power(
        5int,
        231379789631496563523034866787822426961131583851843263922176nat,
        21888242871839275222246405745257275088548364400416034343698204186575808495617int,
        19460668994497479287137176081640516279625570651845874809712732028301846747032int,
        233042759nat,
        19321818016159037061311250724021617607548090886696614157910334987366532500238int,
    );
    assert(231379789631496563523034866787822426961131583851843263922176nat * 233042759nat
        == 53921384552563552462426805409431605981098090062873401459989056323584nat);
}

/// The power of a base with the leading bits of an exponent.
proof fn lemma_power_field_order_tbbb_part_1()
    ensures
        power_is(
            19460668994497479287137176081640516279625570651845874809712732028301846747032int,
            3171318nat,
            21888242871839275222246405745257275088548364400416034343698204186575808495617int,
            391241808898973633825035525565678287445439070405350437390015669934067823316int,
        ),
{
    let n = 21888242871839275222246405745257275088548364400416034343698204186575808495617int;
    let b = 19460668994497479287137176081640516279625570651845874809712732028301846747032int;
    lemma_power_one(b, n);
    let e = 1nat;
    let a = 19460668994497479287137176081640516279625570651845874809712732028301846747032int;
    let q = 17302331664121003130848192906486638367959456383362938805477395000576641917355int;
    let r = 12715499931178492366763078469735486984972140912091768114312062513915207075989int;
    lemma_power_square(b, n, e, a, q, r);
    let e = 2 * e;
    let a = r;
    let q = 11305253542237702948214599573187983605695650121261408850247419260657846448875int;
    let r = 2031633249487378479289476788381005923010981712701071563698617612248632133773int;
    lemma_power_times(b, n, e, a, q, r);
    let e = e + 1;
    let a = r;
    let q = 188573093079709912333258939848997078591043326331151723913810642548842656109int;
    let r = 18243620850081301074948738755974210891319944775082680792218065563953202441276int;
    lemma_power_square(b, n, e, a, q, r);
    let e = 2 * e;
    let a = r;
    let q = 15205866623022965422697783142229757460565914430925319078947980020571671950552int;
    let r = 157000636728832159382653165287118138566573652612858235707101984743095777592int;
    lemma_power_square(b, n, e, a, q, r);
    let e = 2 * e;
    let a = r;
    let q = 1126138816970621563145703562264561715744703492042069308544578290798946698int;
    let r = 16856955037553121669851209684833756707431067652932893754502123251875579695798int;
    lemma_power_square(b, n, e, a, q, r);
    let e = 2 * e;
    let a = r;
    let q = 12982171972501042445107309308555006380723906828947783409834046391484188393787int;
    let r = 10388200027788695992951695409568236077560215131307607274007651039014159325225int;
    lemma_power_square(b, n, e, a, q, r);
    let e = 2 * e;
    let a = r;
    let q = 4930258698663688646125494055665436609166229255539674183989817183644459403613int;
    let r = 7555123590297117697672025665208283161583107107172289469388693431196776836404int;
    lemma_power_square(b, n, e, a, q, r);
    let e = 2 * e;
    let a = r;
    let q = 2607787788123513748725722116032882809788257262868950287630873860282573721721int;
    let r = 21027006039004524223624532389153068680379445529387447202514502262100773454359int;
    lemma_power_square(b, n, e, a, q, r);
    let e = 2 * e;
    let a = r;
    let q = 18694949926603287958590996652522315255586412957333662740746643034608325338744int;
    let r = 6176853306957037326836705392461849539859605790854465290919173311557306427440int;
    lemma_power_times(b, n, e, a, q, r);
    let e = e + 1;
    let a = r;
    let q = 1743105510984310327751527314217092156283792093904838334218833567435811304158int;
    let r = 2882142196429629253104870072184974075782589159509978416851929098835188078114int;
    lemma_power_square(b, n, e, a, q, r);
    let e = 2 * e;
    let a = r;
    let q = 2562490539245274017651031603872697997208764814245766332297972171838817780903int;
    let r = 5514956614111653201215549221613058930290382288182436905973037883072071855497int;
    lemma_power_times(b, n, e, a, q, r);
    let e = e + 1;
    let a = r;
    let q = 1389547193606140317544210224270583865331355177691445861089244171941810069259int;
    let r = 8144690547357392264206232656297671170032631970111869732577682238813081179206int;
    lemma_power_square(b, n, e, a, q, r);
    let e = 2 * e;
    let a = r;
    let q = 3030667399874233328322529310579236314127270311347343091714001169377492544745int;
    let r = 10446019385010103449115306604402207511624910805690982989119196895767977907771int;
    lemma_power_square(b, n, e, a, q, r);
    let e = 2 * e;
    let a = r;
    let q = 4985293777619598048385183145525685582041105920634291671184253699457799258866int;
    let r = 1082665017178967401533465063522628448639744523243445267988156013113572798119int;
    lemma_power_square(b, n, e, a, q, r);
    let e = 2 * e;
    let a = r;
    let q = 53552199063507400941273572064562543992513122257965305991690934460462873512int;
    let r = 11830190840785657790729674976167098503802076496087075634585667572153452541257int;
    lemma_power_square(b, n, e, a, q, r);
    let e = 2 * e;
    let a = r;
    let q = 10518132014628900929921686219999106013739666535100640246945682412112398825934int;
    let r = 10921674191481436897190784310246651006952282333333138667003729104045637367946int;
    lemma_power_times(b, n, e, a, q, r);
    let e = e + 1;
    let a = r;
    let q = 5449636494043905726123481750760329061263274089624629709916163957148189959541int;
    let r = 17717528932292946741748780500106911160665632801284280954082817357191282427119int;
    lemma_power_square(b, n, e, a, q, r);
    let e = 2 * e;
    let a = r;
    let q = 15752519193552431529852230889877976952674644387622065434398997191552455743860int;
    let r = 8979813597454454291779605329396413490317250269773433542239559572258484899188int;
    lemma_power_times(b, n, e, a, q, r);
    let e = e + 1;
    let a = r;
    let q = 3684034973349688248498051315330773190607151991372004296249900358790054012782int;
    let r = 14289604575299033132223935357569421948898134903537276097155849286053014082850int;
    lemma_power_square(b, n, e, a, q, r);
    let e = 2 * e;
    let a = r;
    let q = 12704777918008529088625950925742838816705557375806534807380005578775835426129int;
    let r = 5691103645994109512223821888620333353585929680940182581259710221443815824607int;
    lemma_power_times(b, n, e, a, q, r);
    let e = e + 1;
    let a = r;
    let q = 1479728678957490856287572980655227526991167435480791930987656134305589347499int;
    let r = 7961686481324736224212821817792519082751688380620386845721364513611555292566int;
    lemma_power_square(b, n, e, a, q, r);
    let e = 2 * e;
    let a = r;
    let q = 7078674435322838589448996301083904351868067903226554694006683948385124870961int;
    let r = 8816716532108775912916620699215455205727837427558914573566883720505493086175int;
    lemma_power_times(b, n, e, a, q, r);
    let e = e + 1;
    let a = r;
    let q = 3551426711715217213729716268665275626540096559110102822304263027406108098842int;
    let r = 12931500252513620651633430870894080048035485206163164413281103447634016355111int;
    lemma_power_square(b, n, e, a, q, r);
    let e = 2 * e;
    let a = r;
    let q = 11497297772595550818156271884587746551673802349874545217169839183272646352474int;
    let r = 11484930551325639722475886617858582723674882214405975143218485638824431174094int;
    lemma_power_times(b, n, e, a, q, r);
    let e = e + 1;
    let a = r;
    let q = 6026232006886040349473573746220836139995322871881284376013361262675812193630int;
    let r = 6994650422631207910663128482164353713819965528695299496508558394296326401126int;
    lemma_power_square(b, n, e, a, q, r);
    let e = 2 * e;
    let a = r;
    let q = 6218890086521119954286293278260322731029971002813573758718691289727747502668int;
    let r = 20472486247626849475694078287030269996501349246150773749619267114292908151876int;
    lemma_power_times(b, n, e, a, q, r);
    let e = e + 1;
    let a = r;
    let q = 19148302383765146947449979374219086939431582539174025183959579451087812802906int;
    let r = 1209241555545732616720527411662824379925802527361097694221308443197896456374int;
    lemma_power_square(b, n, e, a, q, r);
    let e = 2 * e;
    let a = r;
    let q = 66805962827649700201143313666882923202928482778941042447360136508723975262int;
    let r = 8909853690833029621122390340717738980055502525173457393264781285474341801222int;
    lemma_power_square(b, n, e, a, q, r);
    let e = 2 * e;
    let a = r;
    let q = 7921682634917378119012486464939446639758725899784468549860299571554840624588int;
    let r = 8457416695039808714435366958854473833029502078891237675371812989947322042308int;
    lemma_power_times(b, n, e, a, q, r);
    let e = e + 1;
    let a = r;
    let q = 3267868397310394583738956064385234767143070872378488830540001320698141589455int;
    let r = 3513855493835661300127057730204795824260016275301150434098397644855361048129int;
    lemma_power_square(b, n, e, a, q, r);
    let e = 2 * e;
    let a = r;
    let q = 3124141990767581672335784118206259778945218095327663851364888765419821333380int;
    let r = 5775711116484158211833467496727512662164222871106485940439256049159814107668int;
    lemma_power_times(b, n, e, a, q, r);
    let e = e + 1;
    let a = r;
    let q = 1524052848664116122642005896864422381828463202281003332100080291641518235324int;
    let r = 391241808898973633825035525565678287445439070405350437390015669934067823316int;
    lemma_power_square(b, n, e, a, q, r);
    let e = 2 * e;
    let a = r;
}

/// A power of a base, computed from the bits of the exponent.
proof fn lemma_power_field_order_tbbb()
    ensures
        power_is(
            19460668994497479287137176081640516279625570651845874809712732028301846747032int,
            405928799nat,
            21888242871839275222246405745257275088548364400416034343698204186575808495617int,
            5518213847638655230193820399970438532374893211737343245757614306891148065801int,
        ),
{
    let n = 21888242871839275222246405745257275088548364400416034343698204186575808495617int;
    let b = 19460668994497479287137176081640516279625570651845874809712732028301846747032int;
    lemma_power_field_order_tbbb_part_1();
    let e = 3171318nat;
    let a = 391241808898973633825035525565678287445439070405350437390015669934067823316int;
    let q = 6993259071858904147777638607370881153914381145561231432584649226908598280int;
    let r = 7732259002667413007839778659888744827515092507283996236567493231121199497096int;
    lemma_power_square(b, n, e, a, q, r);
    let e = 2 * e;
    let a = r;
    let q = 6874692222290261678160842617826121898371460901584776802657623729147123589339int;
    let r = 15651757471834507308726882493251189206028769986578267141343723526279041191909int;
    lemma_power_times(b, n, e, a, q, r);
    let e = e + 1;
    let a = r;
    let q = 11192196349041232948560039021159566525859695954009230153921542989268010599744int;
    let r = 3907107548136176121911802723131794389921765869312138656834601204992801742233int;
    lemma_power_square(b, n, e, a, q, r);
    let e = 2 * e;
    let a = r;
    let q = 697428728385629359209224754412566283124915400766358728694499534926628122046int;
    let r = 16912130712744115162423773382146139261960508025477982438930224459167043753907int;
    lemma_power_square(b, n, e, a, q, r);
    let e = 2 * e;
    let a = r;
    let q = 15036445808805656546587159851772495566122859210797983338722725065765906875972int;
    let r = 15810671622288117140358081557592838084368364938128519579845257879688366039300int;
    lemma_power_times(b, n, e, a, q, r);
    let e = e + 1;
    let a = r;
    let q = 11420621500387303392778403331135888582091008193367949255430041258684439711832int;
    let r = 14185235545627314285951116864659193545064484197851755789480597713052229449656int;
    lemma_power_square(b, n, e, a, q, r);
    let e = 2 * e;
    let a = r;
    let q = 12611984213570456338957408288797256604697729081268205197578163402976407442400int;
    let r = 11165880933102951254271040338501014605882886847743706279594413710348631460192int;
    lemma_power_times(b, n, e, a, q, r);
    let e = e + 1;
    let a = r;
    let q = 5696066958971723003423726304684192361054063969182041109017831262282794589940int;
    let r = 8604984222444131157739372585279990717594099907723511151162364779628278383884int;
    lemma_power_square(b, n, e, a, q, r);
    let e = 2 * e;
    let a = r;
    let q = 7650625526972092555598112493879313268323351667713593656298704046083325492343int;
    let r = 21759593737880222977124951783716064769554179287902918880224968513338851071657int;
    lemma_power_times(b, n, e, a, q, r);
    let e = e + 1;
    let a = r;
    let q = 21631700745004094645029075181118404975875104822013785255639896920890332462821int;
    let r = 7044221091245837461260677617147502362607324445416736093959156483158754770092int;
    lemma_power_square(b, n, e, a, q, r);
    let e = 2 * e;
    let a = r;
    let q = 6262962988096346692217467312056866855886641956449922402708297953220534450379int;
    let r = 2884181944197290833466490685684622645979850358936044647125057360629317878101int;
    lemma_power_times(b, n, e, a, q, r);
    let e = e + 1;
    let a = r;
    let q = 380044462040212097338534492659442109733792146747356425254926635308005228039int;
    let r = 16583841303390711935393693235511071931626799698797011464146281369237478361138int;
    lemma_power_square(b, n, e, a, q, r);
    let e = 2 * e;
    let a = r;
    let q = 14744566210830014290861961108680081073156336062172013452476118812207812829095int;
    let r = 5518213847638655230193820399970438532374893211737343245757614306891148065801int;
    lemma_power_times(b, n, e, a, q, r);
    let e = e + 1;
    let a = r;
}

/// A power of the base of the certificate, as the power of a power.
proof fn lemma_node_field_order_tbbb()
    ensures
        power_is(
            5int,
            93923720117986052603532752310305745601597363513946530060168933146624nat,
            21888242871839275222246405745257275088548364400416034343698204186575808495617int,
            5518213847638655230193820399970438532374893211737343245757614306891148065801int,
        ),
{
    lemma_node_field_order_tbb();
    lemma_power_field_order_tbbb();
    lemma_power_of_power(
        5int,
        231379789631496563523034866787822426961131583851843263922176nat,
        21888242871839275222246405745257275088548364400416034343698204186575808495617int,
        19460668994497479287137176081640516279625570651845874809712732028301846747032int,
        405928799nat,
        5518213847638655230193820399970438532374893211737343245757614306891148065801int,
    );
    assert(231379789631496563523034866787822426961131583851843263922176nat * 405928799nat
        == 93923720117986052603532752310305745601597363513946530060168933146624nat);
}

/// A power of a base, computed from the bits of the exponent.
proof fn lemma_power_field_order_tbbba()
    ensures
        power_is(
            5518213847638655230193820399970438532374893211737343245757614306891148065801int,
            983nat,
            21888242871839275222246405745257275088548364400416034343698204186575808495617int,
            1135558486015409621676726807058439328573409521523979529600469708688064761941int,
        ),
{
    let n = 21888242871839275222246405745257275088548364400416034343698204186575808495617int;
    let b = 5518213847638655230193820399970438532374893211737343245757614306891148065801int;
    lemma_power_one(b, n);
    let e = 1nat;
    let a = 5518213847638655230193820399970438532374893211737343245757614306891148065801int;
    let q = 1391189061934610747845761410021418512039167430798871236681315218134630553295int;
    let r = 11451791921516077479545427800122231043026306884445974648143864659985133363586int;
    lemma_power_square(b, n, e, a, q, r);
    let e = 2 * e;
    let a = r;
    let q = 2887095009480600690689937575453945825161970961380094293490843944421238378277int;
    let r = 1929852852010277782995509303242808815045173731428909642762681828873042810477int;
    lemma_power_times(b, n, e, a, q, r);
    let e = e + 1;
    let a = r;
    let q = 170152170378363791001921285739717018629677408675023183407126455651322753569int;
    let r = 4653470228367233650774568848624824244204961542474712452523910374891033360456int;
    lemma_power_square(b, n, e, a, q, r);
    let e = 2 * e;
    let a = r;
    let q = 1173179775284195004949053161291039883397284358472912846184822815063111337117int;
    let r = 21727064062643470320231349627060850306757363693156214044605741145812535449067int;
    lemma_power_times(b, n, e, a, q, r);
    let e = e + 1;
    let a = r;
    let q = 21567072128460241276620139074493955524135296113660911161950069600112480715351int;
    let r = 9606613997706732243913585040452631591986080055451091893526425442328043053922int;
    lemma_power_square(b, n, e, a, q, r);
    let e = 2 * e;
    let a = r;
    let q = 2421909821700094817250431119500762541081281828227701238245589755093204656621int;
    let r = 14010917327507924178814337971656987228057301193275697861667597721606378591365int;
    lemma_power_times(b, n, e, a, q, r);
    let e = e + 1;
    let a = r;
    let q = 8968550171326117059627098842566139735565761984540918419823096989142973708843int;
    let r = 1826466122467001604436257855785805937510905748821013475197864183130852922094int;
    lemma_power_square(b, n, e, a, q, r);
    let e = 2 * e;
    let a = r;
    let q = 152409607114311085358738454043784400938203269698835463021019192389378707577int;
    let r = 13518465423553562942691668232088132676484097838105567663362639003334304154827int;
    lemma_power_square(b, n, e, a, q, r);
    let e = 2 * e;
    let a = r;
    let q = 3408121133151934770580939584168252373394948771839687940062609803587527352502int;
    let r = 11347561153594996416899340511359654276098989824182554448537744627303606787693int;
    lemma_power_times(b, n, e, a, q, r);
    let e = e + 1;
    let a = r;
    let q = 5882936555873380000614494422470704166461611829552321027748199455650042452030int;
    let r = 14252682320014015752602363859815764056360698402075484612098579849682188509739int;
    lemma_power_square(b, n, e, a, q, r);
    let e = 2 * e;
    let a = r;
    let q = 9280733702776676243763295188257857190872694521387047664187440425768282068028int;
    let r = 14774091132235440365357030186832867682164261643785184763261637408197364014845int;
    lemma_power_square(b, n, e, a, q, r);
    let e = 2 * e;
    let a = r;
    let q = 3724675148641859114632726529661122455157836407587699024075560527766060672955int;
    let r = 13051979752689341880290746054145794587640804401017725799276073031276412877610int;
    lemma_power_times(b, n, e, a, q, r);
    let e = e + 1;
    let a = r;
    let q = 7782907767520473634901993676945543035665214238825366971288617459659384040116int;
    let r = 17995166766898272583151695153475742271389911320327937574000315776587301140528int;
    lemma_power_square(b, n, e, a, q, r);
    let e = 2 * e;
    let a = r;
    let q = 4536735955695317554260717183724811213301449067368234565490316593157010437031int;
    let r = 6797130012932634438213126681149728595810139361031986322603417378260673889801int;
    lemma_power_times(b, n, e, a, q, r);
    let e = e + 1;
    let a = r;
    let q = 2110766802215554643378318088053343967563755869933832391278550494399019265143int;
    let r = 12280851442514514756004276346787748656398809887916315458754244199792215441370int;
    lemma_power_square(b, n, e, a, q, r);
    let e = 2 * e;
    let a = r;
    let q = 3096108028756634270998181919272213068730791635158146596368248817498534282837int;
    let r = 1135558486015409621676726807058439328573409521523979529600469708688064761941int;
    lemma_power_times(b, n, e, a, q, r);
    let e = e + 1;
    let a = r;
}

/// A power of the base of the certificate, as the power of a power.
proof fn lemma_node_field_order_tbbba()
    ensures
        power_is(
            5int,
            92327016875980289709272695521030547926370208334209439049146061283131392nat,
            21888242871839275222246405745257275088548364400416034343698204186575808495617int,
            1135558486015409621676726807058439328573409521523979529600469708688064761941int,
        ),
{
    lemma_node_field_order_tbbb();
    lemma_power_field_order_tbbba();
    lemma_power_of_power(
        5int,
        93923720117986052603532752310305745601597363513946530060168933146624nat,
        21888242871839275222246405745257275088548364400416034343698204186575808495617int,
        5518213847638655230193820399970438532374893211737343245757614306891148065801int,
        983nat,
        1135558486015409621676726807058439328573409521523979529600469708688064761941int,
    );
    assert(93923720117986052603532752310305745601597363513946530060168933146624nat * 983nat
        == 92327016875980289709272695521030547926370208334209439049146061283131392nat);
}

/// A power of a base, computed from the bits of the exponent.
proof fn lemma_power_field_order_tbbbb()
    ensures
        power_is(
            5518213847638655230193820399970438532374893211737343245757614306891148065801int,
            237073nat,
            21888242871839275222246405745257275088548364400416034343698204186575808495617int,
            16151937248511612831218790030381502136078900305644383989873770910345603053439int,
        ),
{
    let n = 21888242871839275222246405745257275088548364400416034343698204186575808495617int;
    let b = 5518213847638655230193820399970438532374893211737343245757614306891148065801int;
    lemma_power_one(b, n);
    let e = 1nat;
    let a = 5518213847638655230193820399970438532374893211737343245757614306891148065801int;
    let q = 1391189061934610747845761410021418512039167430798871236681315218134630553295int;
    let r = 11451791921516077479545427800122231043026306884445974648143864659985133363586int;
    lemma_power_square(b, n, e, a, q, r);
    let e = 2 * e;
    let a = r;
    let q = 2887095009480600690689937575453945825161970961380094293490843944421238378277int;
    let r = 1929852852010277782995509303242808815045173731428909642762681828873042810477int;
    lemma_power_times(b, n, e, a, q, r);
    let e = e + 1;
    let a = r;
    let q = 170152170378363791001921285739717018629677408675023183407126455651322753569int;
    let r = 4653470228367233650774568848624824244204961542474712452523910374891033360456int;
    lemma_power_square(b, n, e, a, q, r);
    let e = 2 * e;
    let a = r;
    let q = 1173179775284195004949053161291039883397284358472912846184822815063111337117int;
    let r = 21727064062643470320231349627060850306757363693156214044605741145812535449067int;
    lemma_power_times(b, n, e, a, q, r);
    let e = e + 1;
    let a = r;
    let q = 21567072128460241276620139074493955524135296113660911161950069600112480715351int;
    let r = 9606613997706732243913585040452631591986080055451091893526425442328043053922int;
    lemma_power_square(b, n, e, a, q, r);
    let e = 2 * e;
    let a = r;
    let q = 4216283282367472120949293966120263736672738033451986339101300308649602816363int;
    let r = 13593397255201586063435173104484472989297703131497889488348146281926858201113int;
    lemma_power_square(b, n, e, a, q, r);
    let e = 2 * e;
    let a = r;
    let q = 8441995550746319942717741177704867461034616313358037568649878216590902297702int;
    let r = 5296797966671938303942845573223919163783610511721282366727223536009058266635int;
    lemma_power_square(b, n, e, a, q, r);
    let e = 2 * e;
    let a = r;
    let q = 1335368218407257306860755637289916153157840278418376053541777594526065397292int;
    let r = 11272939403224678649515219215471975685574248921838484631596434616424037180471int;
    lemma_power_times(b, n, e, a, q, r);
    let e = e + 1;
    let a = r;
    let q = 5805818380801668988363391012967553653965698412465465053339492132887454525956int;
    let r = 17690840225945710843325069034955345938854523171632493561838005914573185046989int;
    lemma_power_square(b, n, e, a, q, r);
    let e = 2 * e;
    let a = r;
    let q = 4460012623341902235284313928826048113104026947504606469562043848585857711327int;
    let r = 1956984094296960866763766318640540498309632801395665243937841275484118169430int;
    lemma_power_times(b, n, e, a, q, r);
    let e = e + 1;
    let a = r;
    let q = 174970040663180843134314099597923309461171616127354712904772206204093866474int;
    let r = 21682686598338868360247786325480196579491573441724226026639584987203374280442int;
    lemma_power_square(b, n, e, a, q, r);
    let e = 2 * e;
    let a = r;
    let q = 5466391347242412685474143567841509928744965922049877238701603446349121361312int;
    let r = 11676262236300799798292695233498320809424272654370480998912535429736617994538int;
    lemma_power_times(b, n, e, a, q, r);
    let e = e + 1;
    let a = r;
    let q = 6228690928236574225090221388850961725371468706963822183023830623264468239135int;
    let r = 19503635086868572877699158811474877565710966868605584524678086065383642462149int;
    lemma_power_square(b, n, e, a, q, r);
    let e = 2 * e;
    let a = r;
    let q = 4917033763094640173437525518340790121978492500282491513871411044598118370990int;
    let r = 943763152047059859408637887653215487124805644566665461589307073572108915519int;
    lemma_power_times(b, n, e, a, q, r);
    let e = e + 1;
    let a = r;
    let q = 40692571458430504343429647584110473956236844513407712756724536003531016412int;
    let r = 14815911442118620347734755216214170139255125095415249996362294398133621973157int;
    lemma_power_square(b, n, e, a, q, r);
    let e = 2 * e;
    let a = r;
    let q = 10028727894970395390658346853784093510580261612453929127106909687171317176925int;
    let r = 13196445249606268710198660555099277428821288733177173577091944834834352508924int;
    lemma_power_square(b, n, e, a, q, r);
    let e = 2 * e;
    let a = r;
    let q = 7956151082822040348226500450058903115800970162980209084916614533102680621209int;
    let r = 18412036043811873415949448651316662884859762332497986422407949617400185896823int;
    lemma_power_square(b, n, e, a, q, r);
    let e = 2 * e;
    let a = r;
    let q = 15487907058760676998356742795007805556061999019018818930749438200163003739657int;
    let r = 21704043741065627255648757681146235570363133632639284330694573884186507909960int;
    lemma_power_square(b, n, e, a, q, r);
    let e = 2 * e;
    let a = r;
    let q = 21521394726487986043933884031626408236945563252419763155812226427727454782733int;
    let r = 11183453580864410114237550121131686532230320187541091536047334885767149420339int;
    lemma_power_square(b, n, e, a, q, r);
    let e = 2 * e;
    let a = r;
    let q = 2819444611232256425935104142518456722012939323481738044009700682498753273108int;
    let r = 15108055184238723151680476517397778792802071390595286322468146980085957758903int;
    lemma_power_times(b, n, e, a, q, r);
    let e = e + 1;
    let a = r;
    let q = 10428124942987822719298246574606150468749480424161822854224903060647064028470int;
    let r = 18487293511641728514568295575263856096113557385929137588781833954439917547419int;
    lemma_power_square(b, n, e, a, q, r);
    let e = 2 * e;
    let a = r;
    let q = 15614776544046565686222068334715793454421841059613496238734512248779701029999int;
    let r = 7439222928821268849213409264623778673388987986964349543773308034398536547178int;
    lemma_power_square(b, n, e, a, q, r);
    let e = 2 * e;
    let a = r;
    let q = 2528391068608865917900618638269188982616199052661215488619853790013182565196int;
    let r = 21739353808891932389302504939031953598995599350733480161514653620680437017752int;
    lemma_power_square(b, n, e, a, q, r);
    let e = 2 * e;
    let a = r;
    let q = 21591477524960024294959329390457960393586535115020937959017172377223027075340int;
    let r = 3850507364443108687030034352601576680226743282731397731452430024850844348724int;
    lemma_power_square(b, n, e, a, q, r);
    let e = 2 * e;
    let a = r;
    let q = 970745947187998992627110530861676453527497978764263327871427007003912549205int;
    let r = 16151937248511612831218790030381502136078900305644383989873770910345603053439int;
    lemma_power_times(b, n, e, a, q, r);
    let e = e + 1;
    let a = r;
}

/// A power of the base of the certificate, as the power of a power.
proof fn lemma_node_field_order_tbbbb()
    ensures
        power_is(
            5int,
            22266778099531307448877320188461114027007491760341845720954429487869591552nat,
            21888242871839275222246405745257275088548364400416034343698204186575808495617int,
            16151937248511612831218790030381502136078900305644383989873770910345603053439int,
        ),
{
    lemma_node_field_order_tbbb();
    lemma_power_field_order_tbbbb();
    lemma_power_of_power(
        5int,
        93923720117986052603532752310305745601597363513946530060168933146624nat,
        21888242871839275222246405745257275088548364400416034343698204186575808495617int,
        5518213847638655230193820399970438532374893211737343245757614306891148065801int,
        237073nat,
        16151937248511612831218790030381502136078900305644383989873770910345603053439int,
    );
    assert(93923720117986052603532752310305745601597363513946530060168933146624nat * 237073nat
        == 22266778099531307448877320188461114027007491760341845720954429487869591552nat);
}

/// A power of a base, computed from the bits of the exponent.
proof fn lemma_power_field_order_full()
    ensures
        power_is(
            21888242871839275222246405745257275088548364400416034343698204186575808495616int,
            2nat,
            21888242871839275222246405745257275088548364400416034343698204186575808495617int,
            1int,
        ),
{
    let n = 21888242871839275222246405745257275088548364400416034343698204186575808495617int;
    let b = 21888242871839275222246405745257275088548364400416034343698204186575808495616int;
    lemma_power_one(b, n);
    let e = 1nat;
    let a = 21888242871839275222246405745257275088548364400416034343698204186575808495616int;
    let q = 21888242871839275222246405745257275088548364400416034343698204186575808495615int;
    let r = 1int;
    lemma_power_square(b, n, e, a, q, r);
    let e = 2 * e;
    let a = r;
}

/// The certificate of the order of the scalar field: base 5, and the prime factors of the
/// number before it.
pub proof fn lemma_certificate_field_order() -> (factors: Seq<int>)
    ensures
        lucas_certificate(
            21888242871839275222246405745257275088548364400416034343698204186575808495617int,
            5,
            factors,
        ),
{
    let n = 21888242871839275222246405745257275088548364400416034343698204186575808495617int;
    lemma_prime_2();
    lemma_node_field_order_tabbb();
    lemma_power_is(
        5int,
        10944121435919637611123202872628637544274182200208017171849102093287904247808nat,
        n,
        21888242871839275222246405745257275088548364400416034343698204186575808495616int,
    );
    lemma_prime_3();
    lemma_node_field_order_tbabb();
    lemma_power_is(
        5int,
        7296080957279758407415468581752425029516121466805344781232734728858602831872nat,
        n,
        4407920970296243842393367215006156084916469457145843978461int,
    );
    lemma_prime_13();
    lemma_node_field_order_tbaba();
    lemma_power_is(
        5int,
        1683710990141482709403569672712098083734489569262771872592169552813523730432nat,
        n,
        20846111736645777009767703653665533493788639406277865704073555848150445038125int,
    );
    lemma_prime_29();
    lemma_node_field_order_tabba();
    lemma_power_is(
        5int,
        754766995580664662836082956733009485812012565531587391162007040916407189504nat,
        n,
        18357710930920482893114740859477755941065533295300174657912055312005893977631int,
    );
    lemma_prime_983();
    lemma_node_field_order_tbbbb();
    lemma_power_is(
        5int,
        22266778099531307448877320188461114027007491760341845720954429487869591552nat,
        n,
        16151937248511612831218790030381502136078900305644383989873770910345603053439int,
    );
    lemma_prime_11003();
    lemma_node_field_order_taba();
    lemma_power_is(
        5int,
        1989297725333025104266691424634851866631679033028813445760083994053967872nat,
        n,
        8299083658399422953216871473066571686783765754016288837524968026835148283600int,
    );
    lemma_prime_237073();
    lemma_node_field_order_tbbba();
    lemma_power_is(
        5int,
        92327016875980289709272695521030547926370208334209439049146061283131392nat,
        n,
        1135558486015409621676726807058439328573409521523979529600469708688064761941int,
    );
    lemma_prime_405928799();
    lemma_node_field_order_tbba();
    lemma_power_is(
        5int,
        53921384552563552462426805409431605981098090062873401459989056323584nat,
        n,
        19321818016159037061311250724021617607548090886696614157910334987366532500238int,
    );
    lemma_prime_1670836401704629();
    lemma_node_field_order_tbaa();
    lemma_power_is(
        5int,
        13100171177446423556613374118717413492986637444144570673659904nat,
        n,
        19643034808648967981397807206080768497060516784825884862247505212574391305991int,
    );
    lemma_prime_13818364434197438864469338081();
    lemma_node_field_order_taa();
    lemma_power_is(
        5int,
        1583996642733683218748855262055434666238317428736nat,
        n,
        7740382856488830440021062471495669005558519249383073335662966997885018076746int,
    );
    lemma_power_field_order_full();
    lemma_power_of_power(
        5int,
        10944121435919637611123202872628637544274182200208017171849102093287904247808nat,
        n,
        21888242871839275222246405745257275088548364400416034343698204186575808495616int,
        2nat,
        1,
    );
    assert(10944121435919637611123202872628637544274182200208017171849102093287904247808nat * 2nat
        == 21888242871839275222246405745257275088548364400416034343698204186575808495616nat);
    lemma_power_is(
        5int,
        21888242871839275222246405745257275088548364400416034343698204186575808495616nat,
        n,
        1,
    );
    lemma_certified_empty(n, 5);
    let s = Seq::<int>::empty();
    lemma_certified_push(
        n,
        5,
        s,
        2int,
        10944121435919637611123202872628637544274182200208017171849102093287904247808nat,
    );
    let s = s.push(2int);
    assert(product(s) == 2int);
    lemma_certified_push(
        n,
        5,
        s,
        2int,
        10944121435919637611123202872628637544274182200208017171849102093287904247808nat,
    );
    let s = s.push(2int);
    assert(product(s) == 4int);
    lemma_certified_push(
        n,
        5,
        s,
        2int,
        10944121435919637611123202872628637544274182200208017171849102093287904247808nat,
    );
    let s = s.push(2int);
    assert(product(s) == 8int);
    lemma_certified_push(
        n,
        5,
        s,
        2int,
        10944121435919637611123202872628637544274182200208017171849102093287904247808nat,
    );
    let s = s.push(2int);
    assert(product(s) == 16int);
    lemma_certified_push(
        n,
        5,
        s,
        2int,
        10944121435919637611123202872628637544274182200208017171849102093287904247808nat,
    );
    let s = s.push(2int);
    assert(product(s) == 32int);
    lemma_certified_push(
        n,
        5,
        s,
        2int,
        10944121435919637611123202872628637544274182200208017171849102093287904247808nat,
    );
    let s = s.push(2int);
    assert(product(s) == 64int);
    lemma_certified_push(
        n,
        5,
        s,
        2int,
        10944121435919637611123202872628637544274182200208017171849102093287904247808nat,
    );
    let s = s.push(2int);
    assert(product(s) == 128int);
    lemma_certified_push(
        n,
        5,
        s,
        2int,
        10944121435919637611123202872628637544274182200208017171849102093287904247808nat,
    );
    let s = s.push(2int);
    assert(product(s) == 256int);
    lemma_certified_push(
        n,
        5,
        s,
        2int,
        10944121435919637611123202872628637544274182200208017171849102093287904247808nat,
    );
    let s = s.push(2int);
    assert(product(s) == 512int);
    lemma_certified_push(
        n,
        5,
        s,
        2int,
        10944121435919637611123202872628637544274182200208017171849102093287904247808nat,
    );
    let s = s.push(2int);
    assert(product(s) == 1024int);
    lemma_certified_push(
        n,
        5,
        s,
        2int,
        10944121435919637611123202872628637544274182200208017171849102093287904247808nat,
    );
    let s = s.push(2int);
    assert(product(s) == 2048int);
    lemma_certified_push(
        n,
        5,
        s,
        2int,
        10944121435919637611123202872628637544274182200208017171849102093287904247808nat,
    );
    let s = s.push(2int);
    assert(product(s) == 4096int);
    lemma_certified_push(
        n,
        5,
        s,
        2int,
        10944121435919637611123202872628637544274182200208017171849102093287904247808nat,
    );
    let s = s.push(2int);
    assert(product(s) == 8192int);
    lemma_certified_push(
        n,
        5,
        s,
        2int,
        10944121435919637611123202872628637544274182200208017171849102093287904247808nat,
    );
    let s = s.push(2int);
    assert(product(s) == 16384int);
    lemma_certified_push(
        n,
        5,
        s,
        2int,
        10944121435919637611123202872628637544274182200208017171849102093287904247808nat,
    );
    let s = s.push(2int);
    assert(product(s) == 32768int);
    lemma_certified_push(
        n,
        5,
        s,
        2int,
        10944121435919637611123202872628637544274182200208017171849102093287904247808nat,
    );
    let s = s.push(2int);
    assert(product(s) == 65536int);
    lemma_certified_push(
        n,
        5,
        s,
        2int,
        10944121435919637611123202872628637544274182200208017171849102093287904247808nat,
    );
    let s = s.push(2int);
    assert(product(s) == 131072int);
    lemma_certified_push(
        n,
        5,
        s,
        2int,
        10944121435919637611123202872628637544274182200208017171849102093287904247808nat,
    );
    let s = s.push(2int);
    assert(product(s) == 262144int);
    lemma_certified_push(
        n,
        5,
        s,
        2int,
        10944121435919637611123202872628637544274182200208017171849102093287904247808nat,
    );
    let s = s.push(2int);
    assert(product(s) == 524288int);
    lemma_certified_push(
        n,
        5,
        s,
        2int,
        10944121435919637611123202872628637544274182200208017171849102093287904247808nat,
    );
    let s = s.push(2int);
    assert(product(s) == 1048576int);
    lemma_certified_push(
        n,
        5,
        s,
        2int,
        10944121435919637611123202872628637544274182200208017171849102093287904247808nat,
    );
    let s = s.push(2int);
    assert(product(s) == 2097152int);
    lemma_certified_push(
        n,
        5,
        s,
        2int,
        10944121435919637611123202872628637544274182200208017171849102093287904247808nat,
    );
    let s = s.push(2int);
    assert(product(s) == 4194304int);
    lemma_certified_push(
        n,
        5,
        s,
        2int,
        10944121435919637611123202872628637544274182200208017171849102093287904247808nat,
    );
    let s = s.push(2int);
    assert(product(s) == 8388608int);
    lemma_certified_push(
        n,
        5,
        s,
        2int,
        10944121435919637611123202872628637544274182200208017171849102093287904247808nat,
    );
    let s = s.push(2int);
    assert(product(s) == 16777216int);
    lemma_certified_push(
        n,
        5,
        s,
        2int,
        10944121435919637611123202872628637544274182200208017171849102093287904247808nat,
    );
    let s = s.push(2int);
    assert(product(s) == 33554432int);
    lemma_certified_push(
        n,
        5,
        s,
        2int,
        10944121435919637611123202872628637544274182200208017171849102093287904247808nat,
    );
    let s = s.push(2int);
    assert(product(s) == 67108864int);
    lemma_certified_push(
        n,
        5,
        s,
        2int,
        10944121435919637611123202872628637544274182200208017171849102093287904247808nat,
    );
    let s = s.push(2int);
    assert(product(s) == 134217728int);
    lemma_certified_push(
        n,
        5,
        s,
        2int,
        10944121435919637611123202872628637544274182200208017171849102093287904247808nat,
    );
    let s = s.push(2int);
    assert(product(s) == 268435456int);
    lemma_certified_push(
        n,
        5,
        s,
        3int,
        7296080957279758407415468581752425029516121466805344781232734728858602831872nat,
    );
    let s = s.push(3int);
    assert(product(s) == 805306368int);
    lemma_certified_push(
        n,
        5,
        s,
        3int,
        7296080957279758407415468581752425029516121466805344781232734728858602831872nat,
    );
    let s = s.push(3int);
    assert(product(s) == 2415919104int);
    lemma_certified_push(
        n,
        5,
        s,
        13int,
        1683710990141482709403569672712098083734489569262771872592169552813523730432nat,
    );
    let s = s.push(13int);
    assert(product(s) == 31406948352int);
    lemma_certified_push(
        n,
        5,
        s,
        29int,
        754766995580664662836082956733009485812012565531587391162007040916407189504nat,
    );
    let s = s.push(29int);
    assert(product(s) == 910801502208int);
    lemma_certified_push(
        n,
        5,
        s,
        983int,
        22266778099531307448877320188461114027007491760341845720954429487869591552nat,
    );
    let s = s.push(983int);
    assert(product(s) == 895317876670464int);
    lemma_certified_push(
        n,
        5,
        s,
        11003int,
        1989297725333025104266691424634851866631679033028813445760083994053967872nat,
    );
    let s = s.push(11003int);
    assert(product(s) == 9851182597005115392int);
    lemma_certified_push(
        n,
        5,
        s,
        237073int,
        92327016875980289709272695521030547926370208334209439049146061283131392nat,
    );
    let s = s.push(237073int);
    assert(product(s) == 2335449411819793721327616int);
    lemma_certified_push(
        n,
        5,
        s,
        405928799int,
        53921384552563552462426805409431605981098090062873401459989056323584nat,
    );
    let s = s.push(405928799int);
    assert(product(s) == 948026174865265269726259848413184int);
    lemma_certified_push(
        n,
        5,
        s,
        1670836401704629int,
        13100171177446423556613374118717413492986637444144570673659904nat,
    );
    let s = s.push(1670836401704629int);
    assert(product(s) == 1583996642733683218748855262055434666238317428736int);
    lemma_certified_push(
        n,
        5,
        s,
        13818364434197438864469338081int,
        1583996642733683218748855262055434666238317428736nat,
    );
    let s = s.push(13818364434197438864469338081int);
    assert(product(s)
        == 21888242871839275222246405745257275088548364400416034343698204186575808495616int);
    lemma_certificate(n, 5, s);
    s
}

/// The order of the scalar field is prime.
pub proof fn lemma_prime_field_order()
    ensures
        is_prime(21888242871839275222246405745257275088548364400416034343698204186575808495617int),
{
    let factors = lemma_certificate_field_order();
    lemma_lucas(
        21888242871839275222246405745257275088548364400416034343698204186575808495617int,
        5,
        factors,
    );
}

/// The order of the scalar field is prime, and the theorem of Fermat holds
/// in the field: every residue but zero, raised to the order less one, is
/// one.
pub proof fn lemma_field_order_is_prime()
    ensures
        is_prime(modulus() as int),
        forall|x: nat| 0 < x < modulus() ==> #[trigger] fpow(x, (modulus() - 1) as nat) == 1,
{
    assert(modulus()
        == 21888242871839275222246405745257275088548364400416034343698204186575808495617nat);
    let factors = lemma_certificate_field_order();
    lemma_lucas(modulus() as int, 5, factors);
    assert forall|x: nat| 0 < x < modulus() implies #[trigger] fpow(x, (modulus() - 1) as nat)
        == 1 by {
        lemma_fermat(modulus() as int, 5, factors, x as int);
    }
}

} // verus!
