use vstd::prelude::*;

verus! {

use vstd::arithmetic::div_mod::{
    lemma_mod_bound,
    lemma_mod_twice,
    lemma_mul_mod_noop_left,
    lemma_mul_mod_noop_right,
    lemma_small_mod,
    lemma_sub_mod_noop,
};
use vstd::arithmetic::power::{lemma_pow0, lemma_pow1, lemma_pow_adds, lemma_pow_mod_noop, lemma_pow_multiplies, pow};
use vstd::std_specs::ops::{AddSpec, MulSpec, SubSpec};
use crate::f_p::prime;
use crate::fermat::lemma_fermat;
use crate::gcd::{gcd, gcd_u64};
use crate::identities::{Identity, Zero};
use crate::inverse::Inverse;
use crate::text::{join, nat_text, u64_text, Textual};

/// A residue modulo `M`, held as its least non-negative representative.
#[derive(Clone, Copy, Debug, Eq, Hash)]
pub struct ModInt<const M: u64> {
    representative: u64,
}

/// `b` to the power `e`, reduced modulo `m`.
pub open spec fn pow_mod(b: int, e: nat, m: int) -> int {
    pow(b, e) % m
}

impl<const M: u64> ModInt<M> {
    /// The representative held.
    pub closed spec fn spec_rep(self) -> u64 {
        self.representative
    }

    /// The representative is the least non-negative residue.
    pub open spec fn wf(self) -> bool {
        self.spec_rep() < M
    }

    /// The residue of `n`.
    pub closed spec fn spec_of(n: int) -> ModInt<M> {
        ModInt { representative: (n % (M as int)) as u64 }
    }

    /// The residue whose representative is `n % M`.
    pub proof fn lemma_spec_of(n: int)
        requires
            M > 0,
        ensures
            Self::spec_of(n).spec_rep() == n % (M as int),
            Self::spec_of(n).wf(),
    {
        lemma_mod_bound(n, M as int);
    }

    /// Zero is represented by `0`.
    pub proof fn lemma_zero()
        ensures
            <ModInt<M> as Zero>::spec_zero().spec_rep() == 0,
    {
    }

    /// Two residues are equal exactly when their representatives are.
    pub proof fn lemma_eq(a: ModInt<M>, b: ModInt<M>)
        ensures
            a == b <==> a.spec_rep() == b.spec_rep(),
    {
    }

    pub fn new(n: u64) -> (r: ModInt<M>)
        requires
            M > 0,
        ensures
            r.spec_rep() == n % M,
            r.wf(),
            r == Self::spec_of(n as int),
    {
        ModInt { representative: n % M }
    }

    pub fn to_int(&self) -> (r: u64)
        ensures
            r == self.spec_rep(),
    {
        self.representative
    }

    /// `self` to the power `n`, by squaring and multiplying over the bits of `n`
    /// from the least significant up.
    pub fn modpow(&self, n: u64) -> (r: ModInt<M>)
        requires
            M > 0,
        ensures
            r.spec_rep() == pow_mod(self.spec_rep() as int, n as nat, M as int),
            r.wf(),
    {
        let m: u128 = M as u128;
        let mut res: u128 = 1u128 % m;
        let mut a: u128 = (self.representative as u128) % m;
        let mut e: u64 = n;
        let ghost b = self.representative as int;
        let ghost mi = M as int;
        proof {
            lemma_mul_mod_noop_left(1, pow(a as int, n as nat), mi);
            lemma_mul_mod_noop_right(1, pow(b % mi, n as nat), mi);
            lemma_pow_mod_noop(b, n as nat, mi);
        }
        while e > 0
            invariant
                m == M as u128,
                mi == M as int,
                mi > 0,
                res < m,
                a < m,
                (res * pow(a as int, e as nat)) % mi == pow(b, n as nat) % mi,
            decreases e,
        {
            let ghost e0 = e as nat;
            let ghost a0 = a as int;
            let ghost res0 = res as int;
            let ghost q = (e / 2) as nat;
            let ghost rbit = (e % 2) as nat;
            proof {
                lemma_pow_adds(a0, 2 * q, rbit);
                lemma_pow_multiplies(a0, 2, q);
                assert(pow(a0, 2) == a0 * a0) by {
                    lemma_pow1(a0);
                    lemma_pow_adds(a0, 1, 1);
                }
                assert(pow(a0, e0) == pow(a0 * a0, q) * pow(a0, rbit));
            }
            assert(res * a <= u128::MAX) by (nonlinear_arith)
                requires
                    res < m,
                    a < m,
                    m <= 0x1_0000_0000_0000_0000u128,
            ;
            assert(a * a <= u128::MAX) by (nonlinear_arith)
                requires
                    a < m,
                    m <= 0x1_0000_0000_0000_0000u128,
            ;
            if e % 2 == 1 {
                res = (res * a) % m;
            }
            a = (a * a) % m;
            e = e / 2;
            proof {
                let p = pow(a0 * a0, q);
                let pr = pow(a0, rbit);
                // res = res0 * pr % mi
                if rbit == 1 {
                    lemma_pow1(a0);
                } else {
                    lemma_pow0(a0);
                    lemma_small_mod(res0 as nat, mi as nat);
                }
                assert(res as int == (res0 * pr) % mi);
                // pow(a, q) ≡ p
                lemma_pow_mod_noop(a0 * a0, q, mi);
                assert(res * pow(a as int, q) % mi == (res * p) % mi) by {
                    lemma_mul_mod_noop_right(res as int, pow(a as int, q), mi);
                    lemma_mul_mod_noop_right(res as int, p, mi);
                }
                assert((res * p) % mi == (res0 * pr * p) % mi) by {
                    lemma_mul_mod_noop_left(res0 * pr, p, mi);
                }
                assert(res0 * pr * p == res0 * pow(a0, e0)) by {
                    vstd::arithmetic::mul::lemma_mul_is_associative(res0, pr, p);
                    vstd::arithmetic::mul::lemma_mul_is_commutative(pr, p);
                }
            }
        }
        proof {
            lemma_pow0(a as int);
            lemma_small_mod(res as nat, m as nat);
        }
        ModInt { representative: res as u64 }
    }
}

impl<const M: u64> PartialEq for ModInt<M> {
    fn eq(&self, other: &ModInt<M>) -> (r: bool) {
        self.representative == other.representative
    }
}

impl<const M: u64> vstd::std_specs::cmp::PartialEqSpecImpl for ModInt<M> {
    open spec fn obeys_eq_spec() -> bool {
        true
    }

    open spec fn eq_spec(&self, other: &ModInt<M>) -> bool {
        *self == *other
    }
}

impl<const M: u64> Textual for ModInt<M> {
    /// `"<representative> mod <M>"`.
    open spec fn spec_text(&self) -> Seq<char> {
        nat_text(self.spec_rep() as nat) + seq![' ', 'm', 'o', 'd', ' '] + nat_text(M as nat)
    }

    fn to_string(&self) -> (r: String) {
        let s = join(u64_text(self.representative), " mod ");
        let m = u64_text(M);
        proof {
            reveal_strlit(" mod ");
        }
        join(s, m.as_str())
    }
}

/// The sum of the representatives, reduced.
fn add_rep(a: u64, b: u64, m: u64) -> (r: u64)
    requires
        m > 0,
    ensures
        r as int == (a + b) % (m as int),
{
    ((a as u128 + b as u128) % (m as u128)) as u64
}

/// The difference of the representatives, reduced.
fn sub_rep(a: u64, b: u64, m: u64) -> (r: u64)
    requires
        m > 0,
    ensures
        r as int == (a - b) % (m as int),
{
    let mm = m as u128;
    let x = (a as u128) % mm;
    let y = (b as u128) % mm;
    proof {
        let mi = m as int;
        vstd::arithmetic::div_mod::lemma_mod_multiples_vanish(1, x - y, mi);
        lemma_sub_mod_noop(a as int, b as int, mi);
    }
    ((x + mm - y) % mm) as u64
}

/// The product of the representatives, reduced.
fn mul_rep(a: u64, b: u64, m: u64) -> (r: u64)
    requires
        m > 0,
    ensures
        r as int == (a * b) % (m as int),
{
    assert(a * b <= u128::MAX) by (nonlinear_arith)
        requires
            a <= u64::MAX,
            b <= u64::MAX,
    ;
    ((a as u128 * b as u128) % (m as u128)) as u64
}

impl<const M: u64> std::ops::Add for ModInt<M> {
    type Output = ModInt<M>;

    fn add(self, rhs: ModInt<M>) -> (r: ModInt<M>)
        ensures
            M > 0 ==> r.spec_rep() == (self.spec_rep() + rhs.spec_rep()) % (M as int),
            M > 0 ==> r.wf(),
    {
        if M == 0 {
            return self;
        }
        ModInt { representative: add_rep(self.representative, rhs.representative, M) }
    }
}

impl<const M: u64> vstd::std_specs::ops::AddSpecImpl for ModInt<M> {
    open spec fn obeys_add_spec() -> bool {
        true
    }

    open spec fn add_req(self, rhs: ModInt<M>) -> bool {
        true
    }

    /// The residue of the sum; with `M == 0`, `self` as it is.
    open spec fn add_spec(self, rhs: ModInt<M>) -> ModInt<M> {
        if M == 0 {
            self
        } else {
            Self::spec_of(self.spec_rep() + rhs.spec_rep())
        }
    }
}

impl<const M: u64> std::ops::AddAssign for ModInt<M> {
    fn add_assign(&mut self, rhs: ModInt<M>)
        ensures
            *final(self) == old(self).add_spec(rhs),
    {
        *self = *self + rhs;
    }
}

impl<const M: u64> std::ops::Sub for ModInt<M> {
    type Output = ModInt<M>;

    fn sub(self, rhs: ModInt<M>) -> (r: ModInt<M>)
        ensures
            M > 0 ==> r.spec_rep() == (self.spec_rep() - rhs.spec_rep()) % (M as int),
            M > 0 ==> r.wf(),
    {
        if M == 0 {
            return self;
        }
        ModInt { representative: sub_rep(self.representative, rhs.representative, M) }
    }
}

impl<const M: u64> vstd::std_specs::ops::SubSpecImpl for ModInt<M> {
    open spec fn obeys_sub_spec() -> bool {
        true
    }

    open spec fn sub_req(self, rhs: ModInt<M>) -> bool {
        true
    }

    /// The residue of the difference; with `M == 0`, `self` as it is.
    open spec fn sub_spec(self, rhs: ModInt<M>) -> ModInt<M> {
        if M == 0 {
            self
        } else {
            Self::spec_of(self.spec_rep() - rhs.spec_rep())
        }
    }
}

impl<const M: u64> std::ops::SubAssign for ModInt<M> {
    fn sub_assign(&mut self, rhs: ModInt<M>)
        ensures
            *final(self) == old(self).sub_spec(rhs),
    {
        *self = *self - rhs;
    }
}

impl<const M: u64> std::ops::Mul for ModInt<M> {
    type Output = ModInt<M>;

    fn mul(self, rhs: ModInt<M>) -> (r: ModInt<M>)
        ensures
            M > 0 ==> r.spec_rep() == (self.spec_rep() * rhs.spec_rep()) % (M as int),
            M > 0 ==> r.wf(),
    {
        if M == 0 {
            return self;
        }
        ModInt { representative: mul_rep(self.representative, rhs.representative, M) }
    }
}

impl<const M: u64> vstd::std_specs::ops::MulSpecImpl for ModInt<M> {
    open spec fn obeys_mul_spec() -> bool {
        true
    }

    open spec fn mul_req(self, rhs: ModInt<M>) -> bool {
        true
    }

    /// The residue of the product; with `M == 0`, `self` as it is.
    open spec fn mul_spec(self, rhs: ModInt<M>) -> ModInt<M> {
        if M == 0 {
            self
        } else {
            Self::spec_of(self.spec_rep() * rhs.spec_rep())
        }
    }
}

impl<const M: u64> std::ops::MulAssign for ModInt<M> {
    fn mul_assign(&mut self, rhs: ModInt<M>)
        ensures
            *final(self) == old(self).mul_spec(rhs),
    {
        *self = *self * rhs;
    }
}

impl<const M: u64> Zero for ModInt<M> {
    closed spec fn spec_zero() -> ModInt<M> {
        ModInt { representative: 0 }
    }

    fn zero() -> (r: ModInt<M>)
        ensures
            r.spec_rep() == 0,
    {
        ModInt { representative: 0 }
    }
}

impl<const M: u64> Identity for ModInt<M> {
    /// The residue of `1`; with `M == 1` that is `0`.
    closed spec fn spec_identity() -> ModInt<M> {
        ModInt { representative: if M == 1 { 0 } else { 1 } }
    }

    fn identity() -> (r: ModInt<M>)
        ensures
            M > 0 ==> r.spec_rep() == 1int % (M as int),
    {
        proof {
            if M > 1 {
                lemma_small_mod(1, M as nat);
            }
        }
        ModInt { representative: if M == 1 { 0 } else { 1 } }
    }
}

impl<const M: u64> Inverse for ModInt<M> {
    open spec fn inverse_req(self) -> bool {
        true
    }

    /// `None` where the representative and `M` have a common factor (or `M == 0`);
    /// otherwise the power `M - 2` (Fermat), which is the inverse when `M` is prime.
    open spec fn spec_inverse(self) -> Option<ModInt<M>> {
        if M == 0 || gcd(self.spec_rep() as nat, M as nat) != 1 {
            None
        } else {
            Some(Self::spec_of(pow_mod(self.spec_rep() as int, fermat_exponent(M as nat), M as int)))
        }
    }

    fn inverse(self) -> (r: Option<ModInt<M>>) {
        if M == 0 || gcd_u64(self.representative, M) != 1 {
            None
        } else {
            let e: u64 = if M >= 2 { M - 2 } else { 0 };
            let r = self.modpow(e);
            proof {
                lemma_mod_twice(pow(self.spec_rep() as int, e as nat), M as int);
            }
            Some(r)
        }
    }
}

/// The exponent that gives an inverse modulo a prime `m`: `m - 2` (or `0` below `2`).
pub open spec fn fermat_exponent(m: nat) -> nat {
    if m >= 2 { (m - 2) as nat } else { 0 }
}

/// Adding zero leaves a residue in canonical form unchanged, and multiplying by zero
/// gives zero.
pub proof fn lemma_zero_laws<const M: u64>(x: ModInt<M>)
    requires
        M > 0,
        x.wf(),
    ensures
        x.add_spec(ModInt::<M>::spec_zero()) == x,
        x.mul_spec(ModInt::<M>::spec_zero()) == ModInt::<M>::spec_zero(),
{
    lemma_small_mod(x.spec_rep() as nat, M as nat);
    assert(x.spec_rep() * 0 == 0);
    lemma_small_mod(0, M as nat);
}

/// Modulo a prime, the inverse of a residue prime to the modulus, times that residue,
/// is one.
pub proof fn lemma_inverse_times_self<const M: u64>(x: ModInt<M>)
    requires
        prime(M as nat),
        x.wf(),
        gcd(x.spec_rep() as nat, M as nat) == 1,
    ensures
        x.spec_inverse() is Some,
        x.spec_inverse().unwrap().mul_spec(x) == ModInt::<M>::spec_identity(),
{
    let a = x.spec_rep() as nat;
    let m = M as nat;
    let mi = M as int;
    if a == 0 {
        lemma_small_mod(0, m);
        assert(gcd(0, m) == gcd(m, 0));
        assert(false);
    }
    lemma_small_mod(a, m);
    lemma_fermat(m, a);
    let e = fermat_exponent(m);
    assert(e == m - 2);
    let q = pow(a as int, e);
    let y = ModInt::<M>::spec_of(q % mi);
    ModInt::<M>::lemma_spec_of(q % mi);
    lemma_mod_twice(q, mi);
    assert(x.spec_inverse() == Some(y));
    ModInt::<M>::lemma_spec_of(y.spec_rep() * a);
    lemma_mul_mod_noop_left(q, a as int, mi);
    lemma_pow_adds(a as int, e, 1);
    lemma_pow1(a as int);
    assert(e + 1 == m - 1);
    assert(y.mul_spec(x).spec_rep() == 1);
}

} // verus!
