//! The number theory behind the fifth root: powers modulo a number, greatest
//! common divisors, and the criterion of Lucas, by which a number is prime
//! once some base has the full order modulo it.
//!
//! A certificate for the criterion is a base together with the prime factors
//! of the number less one. From a certificate it follows that every residue
//! but zero is a power of the base, that the number is prime, and that the
//! theorem of Fermat holds modulo it.

use vstd::arithmetic::div_mod::{
    lemma_fundamental_div_mod, lemma_fundamental_div_mod_converse, lemma_mod_bound,
    lemma_mod_multiples_basic, lemma_mod_multiples_vanish, lemma_mul_mod_noop_general,
    lemma_small_mod,
};
use vstd::arithmetic::power::{
    lemma1_pow, lemma_pow1, lemma_pow_adds, lemma_pow_mod_noop, lemma_pow_multiplies, pow,
};
use vstd::prelude::*;
use vstd::relations::injective_on;
use vstd::set_lib::{lemma_int_range, lemma_map_size, lemma_subset_equality, set_int_range};

verus! {

/// Whether a number is prime: it is two or more, and no number between one
/// and itself divides it.
pub open spec fn is_prime(n: int) -> bool {
    &&& n >= 2
    &&& forall|d: int| 1 < d < n ==> #[trigger] (n % d) != 0
}

/// The power of `g` with exponent `e`, reduced modulo `n`.
pub open spec fn pmod(g: int, e: nat, n: int) -> int {
    pow(g, e) % n
}

/// The greatest common divisor, as the algorithm of Euclid finds it.
pub open spec fn gcd(a: nat, b: nat) -> nat
    decreases b,
{
    if b == 0 {
        a
    } else {
        gcd(b, a % b)
    }
}

/// The product of the numbers of a sequence.
pub open spec fn product(s: Seq<int>) -> int
    decreases s.len(),
{
    if s.len() == 0 {
        1
    } else {
        product(s.drop_last()) * s.last()
    }
}

/// What the criterion of Lucas asks of a number `n`, a base `g` and a list
/// of factors: the factors are prime and their product is `n` less one; `g`
/// to that power is one modulo `n`; and `g` to that power without any one of
/// the factors is not.
pub open spec fn lucas_certificate(n: int, g: int, factors: Seq<int>) -> bool {
    &&& n >= 3
    &&& 0 < g < n
    &&& forall|i: int| 0 <= i < factors.len() ==> is_prime(#[trigger] factors[i])
    &&& product(factors) == n - 1
    &&& pmod(g, (n - 1) as nat, n) == 1
    &&& forall|i: int|
        0 <= i < factors.len() ==> pmod(g, ((n - 1) / #[trigger] factors[i]) as nat, n) != 1
}

/// A power is a residue.
pub proof fn lemma_pmod_bound(g: int, e: nat, n: int)
    requires
        n > 0,
    ensures
        0 <= pmod(g, e, n) < n,
{
    lemma_mod_bound(pow(g, e), n);
}

/// The power with a sum as exponent is the product of the powers.
pub proof fn lemma_pmod_add(g: int, a: nat, b: nat, n: int)
    requires
        n > 0,
    ensures
        pmod(g, a + b, n) == (pmod(g, a, n) * pmod(g, b, n)) % n,
{
    lemma_pow_adds(g, a, b);
    lemma_mul_mod_noop_general(pow(g, a), pow(g, b), n);
}

/// The power with a product as exponent is the power of the power.
pub proof fn lemma_pmod_mul(g: int, a: nat, b: nat, n: int)
    requires
        n > 0,
    ensures
        pmod(g, a * b, n) == pmod(pmod(g, a, n), b, n),
{
    lemma_pow_multiplies(g, a, b);
    lemma_pow_mod_noop(pow(g, a), b, n);
}

/// Where a power is one, so is the power with any multiple of the exponent.
pub proof fn lemma_pmod_one_multiple(g: int, a: nat, k: nat, n: int)
    requires
        n > 1,
        pmod(g, a, n) == 1,
    ensures
        pmod(g, a * k, n) == 1,
{
    lemma_pmod_mul(g, a, k, n);
    lemma1_pow(k);
    lemma_small_mod(1, n as nat);
}

/// Whether `r` is the residue of the power of `g` with exponent `e` modulo
/// `n`. The powers of a certificate are computed over this statement, one
/// bit of the exponent at a time.
pub closed spec fn power_is(g: int, e: nat, n: int, r: int) -> bool {
    n > 1 && pmod(g, e, n) == r
}

/// What `power_is` says.
pub proof fn lemma_power_is(g: int, e: nat, n: int, r: int)
    requires
        power_is(g, e, n, r),
    ensures
        pmod(g, e, n) == r,
{
}

/// A residue is its own first power.
pub proof fn lemma_power_one(g: int, n: int)
    requires
        n > 1,
        0 <= g < n,
    ensures
        power_is(g, 1, n, g),
{
    lemma_pow1(g);
    lemma_small_mod(g as nat, n as nat);
}

/// One squaring: where `a` is the power with exponent `e`, and the square
/// of `a` is `q` times `n` and `r` more, `r` is the power with exponent
/// twice `e`.
pub proof fn lemma_power_square(g: int, n: int, e: nat, a: int, q: int, r: int)
    requires
        power_is(g, e, n, a),
        a * a == q * n + r,
        0 <= r < n,
    ensures
        power_is(g, 2 * e, n, r),
{
    lemma_pow_adds(g, e, e);
    lemma_mul_mod_noop_general(pow(g, e), pow(g, e), n);
    lemma_fundamental_div_mod_converse(a * a, n, q, r);
}

/// One product with the base: where `a` is the power with exponent `e`, and
/// `a` times the base is `q` times `n` and `r` more, `r` is the power with
/// exponent `e` and one.
pub proof fn lemma_power_times(g: int, n: int, e: nat, a: int, q: int, r: int)
    requires
        power_is(g, e, n, a),
        a * g == q * n + r,
        0 <= r < n,
    ensures
        power_is(g, e + 1, n, r),
{
    lemma_pow_adds(g, e, 1);
    lemma_pow1(g);
    lemma_mul_mod_noop_general(pow(g, e), g, n);
    lemma_mul_mod_noop_general(a, g, n);
    lemma_fundamental_div_mod_converse(a * g, n, q, r);
}

/// The power of a power: where `b` is the power of `g` with exponent `x`,
/// and `c` the power of `b` with exponent `y`, `c` is the power of `g` with
/// exponent `x` times `y`.
pub proof fn lemma_power_of_power(g: int, x: nat, n: int, b: int, y: nat, c: int)
    requires
        power_is(g, x, n, b),
        power_is(b, y, n, c),
    ensures
        power_is(g, x * y, n, c),
{
    lemma_pmod_mul(g, x, y, n);
}

/// What the criterion of Lucas asks of each factor of a list: it is prime,
/// and `g` to the power of `n` less one without it is not one modulo `n`.
pub open spec fn factors_certified(n: int, g: int, factors: Seq<int>) -> bool {
    &&& forall|i: int| 0 <= i < factors.len() ==> is_prime(#[trigger] factors[i])
    &&& forall|i: int|
        0 <= i < factors.len() ==> pmod(g, ((n - 1) / #[trigger] factors[i]) as nat, n) != 1
}

/// The empty list is certified, and its product is one.
pub proof fn lemma_certified_empty(n: int, g: int)
    ensures
        factors_certified(n, g, Seq::<int>::empty()),
        product(Seq::<int>::empty()) == 1,
{
}

/// A certified list stays certified when a prime `q` is added for which `g`
/// to the power `e`, which is `n` less one without `q`, is not one.
pub proof fn lemma_certified_push(n: int, g: int, factors: Seq<int>, q: int, e: nat)
    requires
        factors_certified(n, g, factors),
        is_prime(q),
        e * q == n - 1,
        pmod(g, e, n) != 1,
    ensures
        factors_certified(n, g, factors.push(q)),
        product(factors.push(q)) == product(factors) * q,
{
    let longer = factors.push(q);
    assert(longer.drop_last() =~= factors);
    assert((n - 1) / q == e) by {
        assert(n - 1 == q * e + 0) by (nonlinear_arith)
            requires
                e * q == n - 1,
        ;
        lemma_fundamental_div_mod_converse(n - 1, q, e as int, 0);
    }
    assert forall|i: int| 0 <= i < longer.len() implies is_prime(#[trigger] longer[i]) by {
        if i < factors.len() {
            assert(longer[i] == factors[i]);
        }
    }
    assert forall|i: int| 0 <= i < longer.len() implies pmod(
        g,
        ((n - 1) / #[trigger] longer[i]) as nat,
        n,
    ) != 1 by {
        if i < factors.len() {
            assert(longer[i] == factors[i]);
        }
    }
}

/// A certified list whose product is `n` less one, with a base whose power
/// with `n` less one as exponent is one, is a certificate.
pub proof fn lemma_certificate(n: int, g: int, factors: Seq<int>)
    requires
        n >= 3,
        0 < g < n,
        factors_certified(n, g, factors),
        product(factors) == n - 1,
        pmod(g, (n - 1) as nat, n) == 1,
    ensures
        lucas_certificate(n, g, factors),
{
}

/// The greatest common divisor divides both numbers, and is not zero unless
/// both are.
pub proof fn lemma_gcd_divides(a: nat, b: nat)
    ensures
        a > 0 || b > 0 ==> gcd(a, b) > 0,
        gcd(a, b) > 0 ==> a % gcd(a, b) == 0 && b % gcd(a, b) == 0,
    decreases b,
{
    if b == 0 {
        if a > 0 {
            lemma_mod_multiples_basic(1, a as int);
        }
    } else {
        lemma_gcd_divides(b, a % b);
        let d = gcd(a, b);
        assert(d == gcd(b, a % b));
        assert(d > 0);
        // a = b * (a / b) + a % b, and d divides both b and a % b
        lemma_fundamental_div_mod(a as int, b as int);
        lemma_divides_multiple(d as int, b as int, (a / b) as int);
        lemma_divides_sum(d as int, (b * (a / b)) as int, (a % b) as int);
    }
}

/// What divides a number divides its multiples.
pub proof fn lemma_divides_multiple(d: int, x: int, k: int)
    requires
        d > 0,
        x % d == 0,
    ensures
        (x * k) % d == 0,
{
    lemma_mul_mod_noop_general(x, k, d);
    assert((0 * k) % d == 0) by {
        lemma_small_mod(0, d as nat);
    }
}

/// What divides two numbers divides their sum.
pub proof fn lemma_divides_sum(d: int, x: int, y: int)
    requires
        d > 0,
        x % d == 0,
        y % d == 0,
    ensures
        (x + y) % d == 0,
{
    vstd::arithmetic::div_mod::lemma_add_mod_noop(x, y, d);
    lemma_small_mod(0, d as nat);
}

/// The identity of Bezout: the greatest common divisor of two numbers is a
/// combination of them.
pub proof fn lemma_bezout(a: nat, b: nat) -> (c: (int, int))
    ensures
        a * c.0 + b * c.1 == gcd(a, b),
    decreases b,
{
    if b == 0 {
        (1, 0)
    } else {
        let (x, y) = lemma_bezout(b, a % b);
        // b * x + (a % b) * y == d, and a % b == a - b * (a / b)
        lemma_fundamental_div_mod(a as int, b as int);
        let q = (a / b) as int;
        let r = (a % b) as int;
        assert(a * y + b * (x - q * y) == b * x + r * y) by (nonlinear_arith)
            requires
                a == b * q + r,
        ;
        (y, x - q * y)
    }
}

/// The lemma of Gauss: what divides a product and has nothing in common with
/// one factor divides the other.
pub proof fn lemma_gauss(d: nat, q: nat, m: nat)
    requires
        d > 0,
        gcd(d, q) == 1,
        (q * m) % d == 0,
    ensures
        m % d == 0,
{
    let (x, y) = lemma_bezout(d, q);
    // m = m * (d x + q y) = d (m x) + (q m) y
    assert(m == d * (m * x) + (q * m) * y) by (nonlinear_arith)
        requires
            d * x + q * y == 1,
    ;
    lemma_divides_multiple(d as int, (q * m) as int, y);
    lemma_mod_multiples_vanish(m * x, (q * m) * y, d as int);
}

/// The divisors of a prime are one and the prime itself, so that a number
/// has nothing in common with a prime that does not divide it.
pub proof fn lemma_gcd_with_prime(d: nat, q: nat)
    requires
        is_prime(q as int),
        d > 0,
    ensures
        gcd(d, q) == 1 || (gcd(d, q) == q && d % q == 0),
{
    lemma_gcd_divides(d, q);
    let c = gcd(d, q);
    assert(q % c == 0);
    assert(c <= q) by {
        vstd::arithmetic::div_mod::lemma_mod_is_zero(q, c);
    }
    if 1 < c < q {
        assert((q as int) % (c as int) != 0);
    }
}

/// Where two powers of a base are one, so is the power whose exponent is the
/// remainder of the one exponent by the other.
pub proof fn lemma_pmod_remainder(g: int, a: nat, b: nat, n: int)
    requires
        n > 1,
        b > 0,
        pmod(g, a, n) == 1,
        pmod(g, b, n) == 1,
    ensures
        pmod(g, a % b, n) == 1,
{
    let k = a / b;
    let r = a % b;
    lemma_fundamental_div_mod(a as int, b as int);
    lemma_pmod_one_multiple(g, b, k, n);
    lemma_pmod_add(g, b * k, r, n);
    lemma_pmod_bound(g, r, n);
    lemma_small_mod(pmod(g, r, n) as nat, n as nat);
    assert(1 * pmod(g, r, n) == pmod(g, r, n));
}

/// Where two powers of a base are one, so is the power whose exponent is the
/// greatest common divisor of the two exponents.
pub proof fn lemma_pmod_gcd(g: int, a: nat, b: nat, n: int)
    requires
        n > 1,
        pmod(g, a, n) == 1,
        pmod(g, b, n) == 1,
    ensures
        pmod(g, gcd(a, b), n) == 1,
    decreases b,
{
    if b > 0 {
        lemma_pmod_remainder(g, a, b, n);
        lemma_pmod_gcd(g, b, a % b, n);
    }
}

/// The product of primes is positive.
pub proof fn lemma_product_positive(factors: Seq<int>)
    requires
        forall|i: int| 0 <= i < factors.len() ==> is_prime(#[trigger] factors[i]),
    ensures
        product(factors) >= 1,
    decreases factors.len(),
{
    if factors.len() > 0 {
        let rest = factors.drop_last();
        assert forall|i: int| 0 <= i < rest.len() implies is_prime(#[trigger] rest[i]) by {
            assert(rest[i] == factors[i]);
        }
        lemma_product_positive(rest);
        let q = factors.last();
        assert(is_prime(factors[factors.len() - 1]));
        assert(product(rest) * q >= 1) by (nonlinear_arith)
            requires
                product(rest) >= 1,
                q >= 2,
        ;
    }
}

/// A proper divisor of a product of primes divides the product without one
/// of the primes: there are an index `i` and a number `c` such that the
/// product is the prime at `i` times `c`, and the divisor divides `c`.
#[verifier::rlimit(50)]
pub proof fn lemma_proper_divisor(d: int, factors: Seq<int>) -> (r: (int, int))
    requires
        forall|i: int| 0 <= i < factors.len() ==> is_prime(#[trigger] factors[i]),
        0 < d < product(factors),
        product(factors) % d == 0,
    ensures
        0 <= r.0 < factors.len(),
        product(factors) == factors[r.0] * r.1,
        r.1 >= 1,
        r.1 % d == 0,
    decreases factors.len(),
{
    let rest = factors.drop_last();
    let q = factors.last();
    let m = product(factors);
    let m1 = product(rest);
    assert(factors.len() > 0);
    assert(is_prime(factors[factors.len() - 1]));
    assert forall|i: int| 0 <= i < rest.len() implies is_prime(#[trigger] rest[i]) by {
        assert(rest[i] == factors[i]);
    }
    lemma_product_positive(rest);
    lemma_gcd_with_prime(d as nat, q as nat);
    if gcd(d as nat, q as nat) == 1 {
        assert((q * m1) % d == 0) by {
            assert(q * m1 == m1 * q) by (nonlinear_arith);
        }
        lemma_gauss(d as nat, q as nat, m1 as nat);
        assert(m == q * m1) by (nonlinear_arith)
            requires
                m == m1 * q,
        ;
        (factors.len() - 1, m1)
    } else {
        // q divides d: both sides lose the factor q
        let d1 = d / q;
        let k = m / d;
        lemma_fundamental_div_mod(d, q);
        lemma_fundamental_div_mod(m, d);
        assert(d == d1 * q) by (nonlinear_arith)
            requires
                d == q * d1 + 0,
        ;
        assert(m1 == d1 * k && d1 > 0 && k > 1 && d1 < m1) by (nonlinear_arith)
            requires
                m == m1 * q,
                m == d * k + 0,
                d == d1 * q,
                q >= 2,
                0 < d < m,
                m1 >= 1,
        ;
        assert(m1 % d1 == 0) by {
            lemma_mod_multiples_basic(k, d1);
            assert(k * d1 == d1 * k) by (nonlinear_arith);
        }
        let (j, c1) = lemma_proper_divisor(d1, rest);
        assert(rest[j] == factors[j]);
        let t = c1 / d1;
        lemma_fundamental_div_mod(c1, d1);
        let c = c1 * q;
        assert(m == factors[j] * c && c == t * d && c >= 1) by (nonlinear_arith)
            requires
                m == m1 * q,
                m1 == factors[j] * c1,
                c == c1 * q,
                c1 == d1 * t + 0,
                d == d1 * q,
                c1 >= 1,
                q >= 2,
        ;
        lemma_mod_multiples_basic(t, d);
        (j, c)
    }
}

/// Under the criterion of Lucas the base has the full order: no power of it
/// with an exponent between zero and `n` less one is one.
#[verifier::rlimit(50)]
pub proof fn lemma_full_order(n: int, g: int, factors: Seq<int>, e: nat)
    requires
        lucas_certificate(n, g, factors),
        0 < e < n - 1,
    ensures
        pmod(g, e, n) != 1,
{
    if pmod(g, e, n) == 1 {
        let m = (n - 1) as nat;
        let d = gcd(e, m);
        lemma_pmod_gcd(g, e, m, n);
        lemma_gcd_divides(e, m);
        vstd::arithmetic::div_mod::lemma_mod_is_zero(e, d);
        let (i, c) = lemma_proper_divisor(d as int, factors);
        let f = factors[i];
        assert(is_prime(f));
        // c is m without the factor f
        assert(m as int / f == c) by {
            vstd::arithmetic::div_mod::lemma_fundamental_div_mod_converse(m as int, f, c, 0);
            assert(f * c == c * f) by (nonlinear_arith);
        }
        let t = c / (d as int);
        lemma_fundamental_div_mod(c, d as int);
        assert(t >= 0) by (nonlinear_arith)
            requires
                c == d * t + 0,
                c >= 1,
                d > 0,
        ;
        lemma_pmod_one_multiple(g, d, t as nat, n);
        assert(d * (t as nat) == c as nat);
        assert(pmod(g, c as nat, n) == 1);
        assert(pmod(g, ((n - 1) / factors[i]) as nat, n) != 1);
    }
}

/// Under the criterion of Lucas the powers of the base with exponents below
/// `n` less one all differ.
pub proof fn lemma_powers_differ(n: int, g: int, factors: Seq<int>, i: nat, j: nat)
    requires
        lucas_certificate(n, g, factors),
        i < j < n - 1,
    ensures
        pmod(g, i, n) != pmod(g, j, n),
{
    let m = (n - 1) as nat;
    let u = pmod(g, (m - i) as nat, n);
    let a = pmod(g, i, n);
    let b = pmod(g, j, n);
    lemma_pmod_add(g, i, (m - i) as nat, n);
    assert((a * u) % n == 1);
    lemma_pmod_add(g, j, (m - i) as nat, n);
    lemma_pmod_add(g, m, (j - i) as nat, n);
    assert(j + (m - i) == m + (j - i));
    lemma_pmod_bound(g, (j - i) as nat, n);
    lemma_small_mod(pmod(g, (j - i) as nat, n) as nat, n as nat);
    assert((b * u) % n == pmod(g, (j - i) as nat, n)) by {
        assert(1 * pmod(g, (j - i) as nat, n) == pmod(g, (j - i) as nat, n));
    }
    lemma_full_order(n, g, factors, (j - i) as nat);
}

/// Under the criterion of Lucas no power of the base is zero.
pub proof fn lemma_power_not_zero(n: int, g: int, factors: Seq<int>, k: nat)
    requires
        lucas_certificate(n, g, factors),
        k < n - 1,
    ensures
        0 < pmod(g, k, n) < n,
{
    let m = (n - 1) as nat;
    lemma_pmod_add(g, k, (m - k) as nat, n);
    lemma_pmod_bound(g, k, n);
    if pmod(g, k, n) == 0 {
        assert(0 * pmod(g, (m - k) as nat, n) == 0);
        lemma_small_mod(0, n as nat);
    }
}

/// Under the criterion of Lucas every residue but zero is a power of the
/// base.
#[verifier::rlimit(50)]
pub proof fn lemma_powers_cover(n: int, g: int, factors: Seq<int>, x: int) -> (k: nat)
    requires
        lucas_certificate(n, g, factors),
        1 <= x < n,
    ensures
        k < n - 1,
        pmod(g, k, n) == x,
{
    let f = |k: int| pmod(g, k as nat, n);
    let exponents = set_int_range(0, n - 1);
    let powers = exponents.map(f);
    let residues = set_int_range(1, n);
    lemma_int_range(0, n - 1);
    lemma_int_range(1, n);
    assert(injective_on(f, exponents)) by {
        assert forall|a: int, b: int|
            exponents.contains(a) && exponents.contains(b) && #[trigger] f(a) == #[trigger] f(
                b,
            ) implies a == b by {
            if a < b {
                lemma_powers_differ(n, g, factors, a as nat, b as nat);
            } else if b < a {
                lemma_powers_differ(n, g, factors, b as nat, a as nat);
            }
        }
    }
    lemma_map_size(exponents, powers, f);
    assert(powers.subset_of(residues)) by {
        assert forall|y: int| powers.contains(y) implies residues.contains(y) by {
            let k = choose|k: int| exponents.contains(k) && y == f(k);
            lemma_power_not_zero(n, g, factors, k as nat);
        }
    }
    lemma_subset_equality(powers, residues);
    assert(residues.contains(x));
    assert(powers.contains(x));
    let k = choose|k: int| exponents.contains(k) && x == f(k);
    k as nat
}

/// The criterion of Lucas: a number with a certificate is prime.
#[verifier::rlimit(50)]
pub proof fn lemma_lucas(n: int, g: int, factors: Seq<int>)
    requires
        lucas_certificate(n, g, factors),
    ensures
        is_prime(n),
{
    assert forall|d: int| 1 < d < n implies #[trigger] (n % d) != 0 by {
        if n % d == 0 {
            let k = lemma_powers_cover(n, g, factors, d);
            let m = (n - 1) as nat;
            let u = pmod(g, (m - k) as nat, n);
            lemma_pmod_add(g, k, (m - k) as nat, n);
            assert((d * u) % n == 1);
            let c = n / d;
            lemma_fundamental_div_mod(n, d);
            assert(1 < c < n) by (nonlinear_arith)
                requires
                    n == d * c + 0,
                    1 < d < n,
            ;
            // c (d u) is a multiple of n, and is c modulo n
            lemma_mul_mod_noop_general(c, d * u, n);
            assert(c * (d * u) == u * n) by (nonlinear_arith)
                requires
                    n == d * c + 0,
            ;
            lemma_mod_multiples_basic(u, n);
            assert(c * 1 == c);
            lemma_small_mod(c as nat, n as nat);
        }
    }
}

/// The theorem of Fermat for a number with a certificate: every residue but
/// zero, raised to the number less one, is one.
pub proof fn lemma_fermat(n: int, g: int, factors: Seq<int>, x: int)
    requires
        lucas_certificate(n, g, factors),
        1 <= x < n,
    ensures
        pmod(x, (n - 1) as nat, n) == 1,
{
    let k = lemma_powers_cover(n, g, factors, x);
    let m = (n - 1) as nat;
    lemma_pmod_mul(g, k, m, n);
    lemma_pmod_one_multiple(g, m, k, n);
    assert(k * m == m * k) by (nonlinear_arith);
}

} // verus!
