use vstd::prelude::*;

verus! {

use vstd::arithmetic::div_mod::{
    lemma_fundamental_div_mod,
    lemma_fundamental_div_mod_converse,
};
use vstd::arithmetic::mul::{lemma_mul_is_associative, lemma_mul_is_distributive_add, lemma_mul_strict_inequality};

/// The greatest common divisor, by Euclid's algorithm; `gcd(a, 0) == a`.
pub open spec fn gcd(a: nat, b: nat) -> nat
    decreases b,
{
    if b == 0 {
        a
    } else {
        gcd(b, a % b)
    }
}

/// Relies on `num::Integer::gcd` for `u64`: the greatest common divisor, with `gcd(a, 0) == a`.
#[verifier::external_body]
pub(crate) fn gcd_u64(a: u64, b: u64) -> (r: u64)
    ensures
        r as nat == gcd(a as nat, b as nat),
{
    num::Integer::gcd(&a, &b)
}

/// `g` divides `x`.
pub open spec fn divides(g: nat, x: nat) -> bool {
    exists|q: nat| #[trigger] (g * q) == x
}

/// The gcd divides both arguments, and is positive unless both are zero.
pub proof fn lemma_gcd_divides(a: nat, b: nat)
    ensures
        divides(gcd(a, b), a),
        divides(gcd(a, b), b),
        gcd(a, b) == 0 <==> (a == 0 && b == 0),
        gcd(a, b) <= a || a == 0,
    decreases b,
{
    let g = gcd(a, b);
    if b == 0 {
        assert(g * 1 == a);
        assert(g * 0 == b);
    } else {
        let r = a % b;
        lemma_gcd_divides(b, r);
        let s = choose|s: nat| #[trigger] (g * s) == b;
        let t = choose|t: nat| #[trigger] (g * t) == r;
        lemma_fundamental_div_mod(a as int, b as int);
        let q = a / b;
        assert(a == b * q + r);
        assert(b * q == g * (s * q)) by {
            lemma_mul_is_associative(g as int, s as int, q as int);
        }
        assert(g * (s * q + t) == g * (s * q) + g * t) by {
            lemma_mul_is_distributive_add(g as int, (s * q) as int, t as int);
        }
        assert(g * (s * q + t) == a);
        if a > 0 && g > a {
            assert(s * q + t >= 1) by (nonlinear_arith)
                requires
                    g * (s * q + t) == a,
                    a > 0,
            ;
            assert(g * (s * q + t) >= g) by (nonlinear_arith)
                requires
                    s * q + t >= 1,
                    g >= 0,
            ;
        }
    }
}

/// Scaling both arguments scales the gcd: `gcd(k a, k b) == k gcd(a, b)`.
pub proof fn lemma_gcd_scale(k: nat, a: nat, b: nat)
    requires
        k > 0,
    ensures
        gcd(k * a, k * b) == k * gcd(a, b),
    decreases b,
{
    if b == 0 {
        assert(k * b == 0);
    } else {
        let r = a % b;
        let q = a / b;
        lemma_fundamental_div_mod(a as int, b as int);
        assert(k * a == (k * b) * q + k * r) by {
            lemma_mul_is_distributive_add(k as int, (b * q) as int, r as int);
            lemma_mul_is_associative(k as int, b as int, q as int);
        }
        assert(k * r < k * b) by {
            lemma_mul_strict_inequality(r as int, b as int, k as int);
        }
        assert(k * b > 0) by (nonlinear_arith)
            requires
                k > 0,
                b > 0,
        ;
        lemma_fundamental_div_mod_converse(
            (k * a) as int,
            (k * b) as int,
            q as int,
            (k * r) as int,
        );
        assert((k * a) % (k * b) == k * r);
        lemma_gcd_scale(k, b, r);
    }
}

} // verus!
