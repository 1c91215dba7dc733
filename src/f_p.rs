use vstd::prelude::*;

verus! {

use vstd::std_specs::ops::{AddSpec, MulSpec};
use crate::identities::Zero;
use crate::modint::ModInt;
use crate::polynomial::{horner, Polynomial};

/// `n` is prime: at least 2, with no divisor strictly between 1 and `n`.
pub open spec fn prime(n: nat) -> bool {
    n >= 2 && forall|e: nat| 2 <= e < n ==> #[trigger] (n % e) != 0
}

/// An even number does not divide an odd one.
proof fn lemma_even_divisor(n: nat, e: nat)
    requires
        n % 2 == 1,
        e >= 2,
        e % 2 == 0,
    ensures
        n % e != 0,
{
    if n % e == 0 {
        let q = n / e;
        vstd::arithmetic::div_mod::lemma_fundamental_div_mod(n as int, e as int);
        let h = e / 2;
        assert(n == 2 * (h * q)) by (nonlinear_arith)
            requires
                n == e * q,
                e == 2 * h,
        ;
        vstd::arithmetic::div_mod::lemma_mod_multiples_basic((h * q) as int, 2);
        assert((h * q * 2) % 2 == 0);
        assert(n % 2 == 0) by (nonlinear_arith)
            requires
                n == 2 * (h * q),
                (h * q * 2) % 2 == 0,
        ;
    }
}

/// A divisor `e` of `n` with `d <= e < n` and `n < d * d` has a cofactor `f`,
/// `2 <= f < d`, that divides `n` too.
proof fn lemma_small_cofactor(n: nat, d: nat, e: nat)
    requires
        n % e == 0,
        2 <= d <= e,
        e < n,
        n < d * d,
    ensures
        2 <= n / e < d,
        n % (n / e) == 0,
{
    let f = n / e;
    vstd::arithmetic::div_mod::lemma_fundamental_div_mod(n as int, e as int);
    assert(n == e * f);
    assert(f >= 2) by (nonlinear_arith)
        requires
            n == e * f,
            e < n,
            e >= 2,
    ;
    assert(f < d) by (nonlinear_arith)
        requires
            n == e * f,
            n < d * d,
            d <= e,
            d >= 2,
    ;
    vstd::arithmetic::div_mod::lemma_mod_multiples_basic(e as int, f as int);
    assert(n == e * f);
    assert((e * f) % f == 0);
}

/// `d * d`, which fits in `u128`.
fn square(d: u64) -> (r: u128)
    ensures
        r == d * d,
{
    assert(d * d <= u128::MAX) by (nonlinear_arith)
        requires
            d <= u64::MAX,
    ;
    (d as u128) * (d as u128)
}

/// Primality by trial division by 2 and the odd numbers up to the square root.
pub fn is_prime(n: u64) -> (r: bool)
    ensures
        r == prime(n as nat),
{
    if n < 2 {
        return false;
    }
    if n == 2 {
        return true;
    }
    if n % 2 == 0 {
        assert(!prime(n as nat)) by {
            assert((n as nat) % 2 == 0);
        }
        return false;
    }
    let mut d: u64 = 3;
    while square(d) <= n as u128
        invariant
            n >= 3,
            n % 2 == 1,
            d >= 3,
            d % 2 == 1,
            d <= n,
            forall|e: nat| 2 <= e < d ==> #[trigger] ((n as nat) % e) != 0,
        decreases n - d,
    {
        if n % d == 0 {
            assert(d < n) by (nonlinear_arith)
                requires
                    d * d <= n,
                    d >= 3,
            ;
            assert((n as nat) % (d as nat) == 0);
            return false;
        }
        proof {
            lemma_even_divisor(n as nat, (d + 1) as nat);
            assert forall|e: nat| 2 <= e < d + 2 implies #[trigger] ((n as nat) % e) != 0 by {
                if e == d + 1 {
                    lemma_even_divisor(n as nat, e);
                }
            }
        }
        assert(d + 2 <= n) by (nonlinear_arith)
            requires
                d * d <= n,
                d >= 3,
        ;
        d = d + 2;
    }
    assert forall|e: nat| 2 <= e < n implies #[trigger] ((n as nat) % e) != 0 by {
        if e >= d && (n as nat) % e == 0 {
            lemma_small_cofactor(n as nat, d as nat, e);
            let f = (n as nat) / e;
            assert((n as nat) % f != 0);
        }
    }
    true
}

/// The modulus of the field searched by `solve_equation`.
pub const MOD: u64 = 103;

/// The value at `x` of the polynomial with coefficients `s`, computed with integers by
/// Horner's rule and reduced modulo `N` at each step.
pub open spec fn value_mod<const N: u64>(s: Seq<ModInt<N>>, x: int) -> int
    decreases s.len(),
{
    if s.len() == 0 {
        0
    } else {
        (value_mod(s.drop_first(), x) * x + s[0].spec_rep()) % (N as int)
    }
}

/// The residues `0, 1, .., k - 1` at which `s` evaluates to zero, in increasing order.
pub open spec fn roots_below<const N: u64>(s: Seq<ModInt<N>>, k: nat) -> Seq<ModInt<N>>
    decreases k,
{
    if k == 0 {
        Seq::empty()
    } else {
        let prev = roots_below(s, (k - 1) as nat);
        if value_mod(s, k - 1) == 0 {
            prev.push(ModInt::<N>::spec_of(k - 1))
        } else {
            prev
        }
    }
}

/// Evaluating with residues agrees with evaluating with integers modulo `N`.
pub proof fn lemma_value_mod<const N: u64>(s: Seq<ModInt<N>>, x: int)
    requires
        N > 0,
        0 <= x < N,
    ensures
        horner(s, ModInt::<N>::spec_of(x), ModInt::<N>::spec_zero()) == ModInt::<N>::spec_of(
            value_mod(s, x),
        ),
        0 <= value_mod(s, x) < N,
    decreases s.len(),
{
    let n = N as int;
    let z = ModInt::<N>::spec_zero();
    let xm = ModInt::<N>::spec_of(x);
    ModInt::<N>::lemma_zero();
    ModInt::<N>::lemma_spec_of(x);
    vstd::arithmetic::div_mod::lemma_small_mod(x as nat, N as nat);
    if s.len() == 0 {
        ModInt::<N>::lemma_spec_of(0);
        ModInt::<N>::lemma_eq(z, ModInt::<N>::spec_of(0));
    } else {
        let t = s.drop_first();
        lemma_value_mod(t, x);
        let v = value_mod(t, x);
        let h = horner(t, xm, z);
        let p = h.mul_spec(xm);
        ModInt::<N>::lemma_spec_of(v);
        vstd::arithmetic::div_mod::lemma_small_mod(v as nat, N as nat);
        ModInt::<N>::lemma_spec_of(v * x);
        assert(p.spec_rep() == (v * x) % n);
        let q = p.add_spec(s[0]);
        ModInt::<N>::lemma_spec_of(p.spec_rep() + s[0].spec_rep());
        vstd::arithmetic::div_mod::lemma_add_mod_noop(v * x, s[0].spec_rep() as int, n);
        vstd::arithmetic::div_mod::lemma_add_mod_noop_right((v * x) % n, s[0].spec_rep() as int, n);
        vstd::arithmetic::div_mod::lemma_mod_twice(v * x + s[0].spec_rep(), n);
        vstd::arithmetic::div_mod::lemma_mod_bound(v * x + s[0].spec_rep(), n);
        ModInt::<N>::lemma_spec_of(value_mod(s, x));
        assert(q.spec_rep() == value_mod(s, x));
        ModInt::<N>::lemma_eq(q, ModInt::<N>::spec_of(value_mod(s, x)));
    }
}

/// Every root of `f` in the field of `MOD` elements, found by trying each residue in turn.
pub fn solve_equation(f: Polynomial<ModInt<MOD>>) -> (r: Vec<ModInt<MOD>>)
    ensures
        r@ == roots_below(f.spec_coefficients(), MOD as nat),
{
    let mut s: Vec<ModInt<MOD>> = Vec::new();
    let mut i: u64 = 0;
    while i < MOD
        invariant
            i <= MOD,
            s@ == roots_below(f.spec_coefficients(), i as nat),
        decreases MOD - i,
    {
        let x = ModInt::<MOD>::new(i);
        let v = f.evaluate(x);
        let z = ModInt::<MOD>::zero();
        proof {
            vstd::arithmetic::div_mod::lemma_small_mod(i as nat, MOD as nat);
            lemma_value_mod(f.spec_coefficients(), i as int);
            ModInt::<MOD>::lemma_spec_of(value_mod(f.spec_coefficients(), i as int));
            ModInt::<MOD>::lemma_zero();
            ModInt::<MOD>::lemma_eq(v, z);
        }
        if v == z {
            s.push(x);
        }
        i = i + 1;
    }
    s
}

} // verus!
