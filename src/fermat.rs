use vstd::prelude::*;

verus! {

use vstd::arithmetic::div_mod::{
    lemma_add_mod_noop,
    lemma_fundamental_div_mod,
    lemma_mod_twice,
    lemma_mul_mod_noop_left,
    lemma_small_mod,
    lemma_sub_mod_noop,
};
use vstd::arithmetic::power::pow;
use crate::f_p::prime;
use crate::gcd::{gcd, lemma_gcd_divides, lemma_gcd_scale};

/// The binomial coefficient, by Pascal's rule.
pub open spec fn binom(n: nat, k: nat) -> nat
    decreases n,
{
    if k == 0 {
        1
    } else if n == 0 {
        0
    } else {
        binom((n - 1) as nat, (k - 1) as nat) + binom((n - 1) as nat, k)
    }
}

/// `binom(n, 0) x^0 + .. + binom(n, m - 1) x^(m - 1)`.
pub open spec fn binom_sum(n: nat, x: int, m: nat) -> int
    decreases m,
{
    if m == 0 {
        0
    } else {
        binom_sum(n, x, (m - 1) as nat) + binom(n, (m - 1) as nat) * pow(x, (m - 1) as nat)
    }
}

/// `x^(e + 1) == x x^e`.
proof fn lemma_pow_succ(x: int, e: nat)
    ensures
        pow(x, e + 1) == x * pow(x, e),
        pow(x, 0) == 1,
{
    reveal(pow);
}

/// Past `n`, the binomial coefficients vanish.
proof fn lemma_binom_past(n: nat, k: nat)
    requires
        k > n,
    ensures
        binom(n, k) == 0,
    decreases n,
{
    if n > 0 {
        lemma_binom_past((n - 1) as nat, (k - 1) as nat);
        lemma_binom_past((n - 1) as nat, k);
    }
}

/// `binom(n, n) == 1`.
proof fn lemma_binom_top(n: nat)
    ensures
        binom(n, n) == 1,
    decreases n,
{
    if n > 0 {
        lemma_binom_top((n - 1) as nat);
        lemma_binom_past((n - 1) as nat, n);
    }
}

/// `binom(n, 1) == n`.
proof fn lemma_binom_one(n: nat)
    ensures
        binom(n, 1) == n,
    decreases n,
{
    if n > 0 {
        lemma_binom_one((n - 1) as nat);
        assert(binom((n - 1) as nat, 0) == 1);
    }
}

/// Absorption: `k binom(n, k) == n binom(n - 1, k - 1)`.
proof fn lemma_absorption(n: nat, k: nat)
    requires
        n >= 1,
        k >= 1,
    ensures
        k * binom(n, k) == n * binom((n - 1) as nat, (k - 1) as nat),
    decreases n,
{
    if k == 1 {
        lemma_binom_one(n);
        assert(binom((n - 1) as nat, 0) == 1);
    } else if n == 1 {
        lemma_binom_past(0, (k - 1) as nat);
        lemma_binom_past(0, k);
        assert(binom(1, k) == binom(0, (k - 1) as nat) + binom(0, k));
        assert(binom(1, k) == 0);
    } else {
        let (n1, k1) = ((n - 1) as nat, (k - 1) as nat);
        lemma_absorption(n1, k1);
        lemma_absorption(n1, k);
        let (a, b) = (binom(n1, k1), binom(n1, k));
        assert(binom(n, k) == a + b);
        assert(binom(n1, k1) == binom((n1 - 1) as nat, (k1 - 1) as nat) + binom((n1 - 1) as nat, k1));
        assert(k * binom(n, k) == n * binom(n1, k1)) by (nonlinear_arith)
            requires
                binom(n, k) == a + b,
                k1 * a == n1 * binom((n1 - 1) as nat, (k1 - 1) as nat),
                k * b == n1 * binom((n1 - 1) as nat, k1),
                a == binom((n1 - 1) as nat, (k1 - 1) as nat) + binom((n1 - 1) as nat, k1),
                binom(n1, k1) == a,
                k1 == k - 1,
                n1 == n - 1,
        ;
    }
}

/// One step of the binomial theorem: `S(n + 1, m) == x S(n, m - 1) + S(n, m)`.
proof fn lemma_binom_sum_step(n: nat, x: int, m: nat)
    requires
        m >= 1,
    ensures
        binom_sum(n + 1, x, m) == x * binom_sum(n, x, (m - 1) as nat) + binom_sum(n, x, m),
    decreases m,
{
    if m == 1 {
        lemma_pow_succ(x, 0);
        assert(binom((n + 1) as nat, 0) == 1 && binom(n, 0) == 1);
        assert(binom_sum(n + 1, x, 0) == 0 && binom_sum(n, x, 0) == 0);
        assert(binom_sum(n + 1, x, 1) == 1);
        assert(binom_sum(n, x, 1) == 1);
        assert(binom_sum(n, x, 0) == 0);
    } else {
        let m1 = (m - 1) as nat;
        let m2 = (m - 2) as nat;
        lemma_binom_sum_step(n, x, m1);
        lemma_pow_succ(x, m2);
        let (c1, c0) = (binom(n, m2), binom(n, m1));
        assert(binom((n + 1) as nat, m1) == c1 + c0);
        let (p1, p0) = (pow(x, m2), pow(x, m1));
        let (s2, s1) = (binom_sum(n, x, m2), binom_sum(n, x, m1));
        assert(binom_sum(n + 1, x, m) == binom_sum(n + 1, x, m1) + (c1 + c0) * p0);
        assert(binom_sum(n, x, m1) == s2 + c1 * p1);
        assert(binom_sum(n, x, m) == s1 + c0 * p0);
        assert(binom_sum(n + 1, x, m) == x * s1 + (s1 + c0 * p0)) by (nonlinear_arith)
            requires
                binom_sum(n + 1, x, m) == binom_sum(n + 1, x, m1) + (c1 + c0) * p0,
                binom_sum(n + 1, x, m1) == x * s2 + s1,
                s1 == s2 + c1 * p1,
                p0 == x * p1,
        ;
    }
}

/// The binomial theorem: `(x + 1)^n == S(n, n + 1)`.
proof fn lemma_binomial(n: nat, x: int)
    ensures
        pow(x + 1, n) == binom_sum(n, x, n + 1),
    decreases n,
{
    lemma_pow_succ(x, 0);
    if n == 0 {
        lemma_pow_succ(x + 1, 0);
        assert(binom(0, 0) == 1 && binom_sum(0, x, 0) == 0);
        assert(binom_sum(0, x, 1) == 1);
    } else {
        let n1 = (n - 1) as nat;
        lemma_binomial(n1, x);
        lemma_pow_succ(x + 1, n1);
        lemma_binom_sum_step(n1, x, n + 1);
        lemma_binom_past(n1, n);
        let s = binom_sum(n1, x, n);
        assert(binom_sum(n1, x, n + 1) == s + binom(n1, n) * pow(x, n));
        assert(binom_sum(n1, x, n + 1) == s);
        assert(pow(x + 1, n) == (x + 1) * s);
        assert((x + 1) * s == x * s + s) by (nonlinear_arith);
    }
}

/// A common divisor of `x` and `y` divides their gcd.
proof fn lemma_common_divisor(d: nat, x: nat, y: nat)
    requires
        d > 0,
        x % d == 0,
        y % d == 0,
    ensures
        gcd(x, y) % d == 0,
    decreases y,
{
    if y > 0 {
        let q = x / y;
        let r = x % y;
        lemma_fundamental_div_mod(x as int, y as int);
        assert(r == x - y * q);
        lemma_sub_mod_noop(x as int, (y * q) as int, d as int);
        lemma_mul_mod_noop_left(y as int, q as int, d as int);
        assert(0int * q == 0);
        lemma_small_mod(0, d);
        assert(((y * q) as int) % (d as int) == 0);
        assert((0int - 0int) % (d as int) == 0);
        lemma_common_divisor(d, y, r);
    }
}

/// Euclid's lemma: a prime that divides a product of two factors, and not the first,
/// divides the second.
proof fn lemma_euclid(p: nat, a: nat, b: nat)
    requires
        prime(p),
        (a * b) % p == 0,
        a % p != 0,
    ensures
        b % p == 0,
{
    let g = gcd(p, a);
    lemma_gcd_divides(p, a);
    let s = choose|s: nat| #[trigger] (g * s) == p;
    let t = choose|t: nat| #[trigger] (g * t) == a;
    assert(g >= 1 && g <= p);
    assert(p % g == 0) by {
        vstd::arithmetic::div_mod::lemma_mod_multiples_basic(s as int, g as int);
        vstd::arithmetic::mul::lemma_mul_is_commutative(g as int, s as int);
    }
    if g != 1 {
        if g < p {
            assert((p % g) != 0);
        } else {
            assert(g == p);
            vstd::arithmetic::div_mod::lemma_mod_multiples_basic(t as int, p as int);
            vstd::arithmetic::mul::lemma_mul_is_commutative(p as int, t as int);
            assert(a % p == 0);
        }
    }
    assert(g == 1);
    if b > 0 {
        lemma_gcd_scale(b, p, a);
        assert(gcd(b * p, b * a) == b) by {
            assert(b * g == b);
        }
        vstd::arithmetic::div_mod::lemma_mod_multiples_basic(b as int, p as int);
        assert((b * p) % p == 0);
        vstd::arithmetic::mul::lemma_mul_is_commutative(a as int, b as int);
        lemma_common_divisor(p, b * p, b * a);
    } else {
        lemma_small_mod(0, p);
    }
}

/// A prime divides the binomial coefficients strictly between the ends.
proof fn lemma_prime_divides_binom(p: nat, k: nat)
    requires
        prime(p),
        0 < k < p,
    ensures
        binom(p, k) % p == 0,
{
    lemma_absorption(p, k);
    let c = binom((p - 1) as nat, (k - 1) as nat);
    vstd::arithmetic::div_mod::lemma_mod_multiples_basic(c as int, p as int);
    vstd::arithmetic::mul::lemma_mul_is_commutative(p as int, c as int);
    assert((k * binom(p, k)) % p == 0);
    lemma_small_mod(k, p);
    lemma_euclid(p, k, binom(p, k));
}

/// Modulo a prime `p`, the middle of the binomial sum vanishes: `S(p, m) ≡ 1` for `1 <= m <= p`.
proof fn lemma_binom_sum_mod(p: nat, x: int, m: nat)
    requires
        prime(p),
        1 <= m <= p,
    ensures
        binom_sum(p, x, m) % (p as int) == 1,
    decreases m,
{
    let pi = p as int;
    if m == 1 {
        lemma_pow_succ(x, 0);
        assert(binom(p, 0) == 1 && binom_sum(p, x, 0) == 0);
        assert(binom_sum(p, x, 1) == 1);
        lemma_small_mod(1, p);
    } else {
        let m1 = (m - 1) as nat;
        lemma_binom_sum_mod(p, x, m1);
        lemma_prime_divides_binom(p, m1);
        let c = binom(p, m1);
        let term = c * pow(x, m1);
        lemma_mul_mod_noop_left(c as int, pow(x, m1), pi);
        assert(0int * pow(x, m1) == 0);
        lemma_small_mod(0, p);
        assert(term % pi == 0);
        lemma_add_mod_noop(binom_sum(p, x, m1), term, pi);
        lemma_small_mod(1, p);
    }
}

/// Freshman's dream modulo a prime: `(x + 1)^p ≡ x^p + 1`.
proof fn lemma_succ_pow_mod(p: nat, x: int)
    requires
        prime(p),
    ensures
        pow(x + 1, p) % (p as int) == (pow(x, p) + 1) % (p as int),
{
    let pi = p as int;
    lemma_binomial(p, x);
    lemma_binom_top(p);
    assert(binom_sum(p, x, p + 1) == binom_sum(p, x, p) + binom(p, p) * pow(x, p));
    lemma_binom_sum_mod(p, x, p);
    lemma_add_mod_noop(binom_sum(p, x, p), pow(x, p), pi);
    lemma_add_mod_noop(1, pow(x, p), pi);
    lemma_small_mod(1, p);
    lemma_mod_twice(pow(x, p), pi);
}

/// Fermat: `a^p ≡ a` modulo a prime `p`.
proof fn lemma_fermat_pow(p: nat, a: nat)
    requires
        prime(p),
    ensures
        pow(a as int, p) % (p as int) == (a as int) % (p as int),
    decreases a,
{
    let pi = p as int;
    if a == 0 {
        lemma_pow_succ(0, (p - 1) as nat);
        assert(pow(0, p) == 0);
    } else {
        let a1 = (a - 1) as nat;
        lemma_fermat_pow(p, a1);
        lemma_succ_pow_mod(p, a1 as int);
        lemma_add_mod_noop(pow(a1 as int, p), 1, pi);
        lemma_add_mod_noop(a1 as int, 1, pi);
    }
}

/// Fermat's little theorem: `a^(p - 1) ≡ 1` modulo a prime `p` that does not divide `a`.
pub proof fn lemma_fermat(p: nat, a: nat)
    requires
        prime(p),
        a % p != 0,
    ensures
        pow(a as int, (p - 1) as nat) % (p as int) == 1,
{
    let pi = p as int;
    let e = (p - 1) as nat;
    lemma_fermat_pow(p, a);
    lemma_pow_succ(a as int, e);
    let q = pow(a as int, e);
    assert(a > 0);
    vstd::arithmetic::power::lemma_pow_positive(a as int, e);
    assert(q >= 1);
    // p divides a (q - 1)
    assert(a * (q - 1) == a * q - a) by (nonlinear_arith);
    lemma_sub_mod_noop(a * q, a as int, pi);
    assert(((a * q) % pi - (a as int) % pi) == 0);
    assert((0int) % pi == 0);
    let r = (q - 1) as nat;
    assert(((a * r) as nat) % p == 0);
    lemma_euclid(p, a, r);
    lemma_add_mod_noop(r as int, 1, pi);
    lemma_small_mod(1, p);
    assert((0 + 1int) % pi == 1);
}

} // verus!
