use vstd::prelude::*;

verus! {

use vstd::arithmetic::div_mod::lemma_div_by_multiple;
use vstd::std_specs::ops::{AddSpec, MulSpec, SubSpec};
use crate::gcd::{gcd, gcd_u64, lemma_gcd_divides, lemma_gcd_scale};
use crate::identities::{Identity, Zero};
use crate::inverse::Inverse;
use crate::text::{i64_text, int_text, join, nat_text, u64_text, Textual};

/// A fraction `numerator / denominator` in lowest terms with a positive denominator.
/// Zero is `0 / 1`; a zero denominator is kept as the undefined value `1 / 0`.
#[derive(Clone, Copy, Debug, Eq, Hash)]
pub struct RationalNumber {
    numerator: i64,
    denominator: u64,
}

/// The absolute value.
pub open spec fn abs(n: int) -> nat {
    if n < 0 { (-n) as nat } else { n as nat }
}

/// The numerator of `n / d` in lowest terms (`1` for `d == 0`, `0` for `n == 0`).
pub open spec fn reduced_num(n: int, d: nat) -> int {
    if d == 0 {
        1
    } else if n == 0 {
        0
    } else if n > 0 {
        n / (gcd(abs(n), d) as int)
    } else {
        -(abs(n) / gcd(abs(n), d)) as int
    }
}

/// The denominator of `n / d` in lowest terms (`0` for `d == 0`, `1` for `n == 0`).
pub open spec fn reduced_den(n: int, d: nat) -> nat {
    if d == 0 {
        0
    } else if n == 0 {
        1
    } else {
        d / gcd(abs(n), d)
    }
}

/// The sign of `n` times `m`.
pub open spec fn signed(n: int, m: int) -> int {
    if n < 0 { -m } else { m }
}

impl RationalNumber {
    pub closed spec fn spec_num(self) -> i64 {
        self.numerator
    }

    pub closed spec fn spec_den(self) -> u64 {
        self.denominator
    }

    /// The canonical form: `1 / 0`, `0 / 1`, or coprime with a positive denominator.
    pub open spec fn wf(self) -> bool {
        if self.spec_den() == 0 {
            self.spec_num() == 1
        } else if self.spec_num() == 0 {
            self.spec_den() == 1
        } else {
            gcd(abs(self.spec_num() as int), self.spec_den() as nat) == 1
        }
    }

    /// The value that `new(n, d)` returns.
    pub open spec fn spec_new(n: int, d: nat) -> RationalNumber {
        Self::from_parts(reduced_num(n, d), reduced_den(n, d))
    }

    /// `self + rhs`, reduced.
    pub open spec fn spec_sum(self, rhs: RationalNumber) -> RationalNumber {
        Self::spec_new(sum_num(self, rhs), prod_den(self, rhs) as nat)
    }

    /// `self - rhs`, reduced.
    pub open spec fn spec_diff(self, rhs: RationalNumber) -> RationalNumber {
        Self::spec_new(diff_num(self, rhs), prod_den(self, rhs) as nat)
    }

    /// `self * rhs`, reduced.
    pub open spec fn spec_prod(self, rhs: RationalNumber) -> RationalNumber {
        Self::spec_new(prod_num(self, rhs), prod_den(self, rhs) as nat)
    }

    /// `-self`, reduced.
    pub open spec fn spec_neg(self) -> RationalNumber {
        Self::spec_new(-self.spec_num(), self.spec_den() as nat)
    }

    /// The cross sum and the product of the denominators fit the fields.
    pub open spec fn sum_ok(self, rhs: RationalNumber) -> bool {
        fits(sum_num(self, rhs), prod_den(self, rhs))
    }

    /// The cross difference and the product of the denominators fit the fields.
    pub open spec fn diff_ok(self, rhs: RationalNumber) -> bool {
        fits(diff_num(self, rhs), prod_den(self, rhs))
    }

    /// The products of the numerators and of the denominators fit the fields.
    pub open spec fn prod_ok(self, rhs: RationalNumber) -> bool {
        fits(prod_num(self, rhs), prod_den(self, rhs))
    }

    /// The numerator is not `i64::MIN`, whose negation does not fit.
    pub open spec fn neg_ok(self) -> bool {
        self.spec_num() != i64::MIN
    }

    /// The fraction with the given parts, as they are.
    pub closed spec fn from_parts(n: int, d: nat) -> RationalNumber {
        RationalNumber { numerator: n as i64, denominator: d as u64 }
    }

    /// Two fractions are equal exactly when their parts are.
    pub proof fn lemma_eq(a: RationalNumber, b: RationalNumber)
        ensures
            a == b <==> (a.spec_num() == b.spec_num() && a.spec_den() == b.spec_den()),
    {
    }

    /// The parts of `n / d` in lowest terms fit the fields, and are canonical.
    pub proof fn lemma_reduced(n: int, d: nat)
        requires
            i64::MIN <= n <= i64::MAX,
            d <= u64::MAX,
        ensures
            i64::MIN <= reduced_num(n, d) <= i64::MAX,
            reduced_den(n, d) <= d || d == 0,
            Self::spec_new(n, d).spec_num() == reduced_num(n, d),
            Self::spec_new(n, d).spec_den() == reduced_den(n, d),
            Self::spec_new(n, d).wf(),
    {
        if d != 0 && n != 0 {
            let m = abs(n);
            let g = gcd(m, d);
            lemma_gcd_divides(m, d);
            let s = choose|s: nat| #[trigger] (g * s) == m;
            let t = choose|t: nat| #[trigger] (g * t) == d;
            assert(g > 0);
            lemma_div_by_multiple(s as int, g as int);
            lemma_div_by_multiple(t as int, g as int);
            assert(s == m / g) by {
                vstd::arithmetic::mul::lemma_mul_is_commutative(g as int, s as int);
            }
            assert(t == d / g) by {
                vstd::arithmetic::mul::lemma_mul_is_commutative(g as int, t as int);
            }
            lemma_gcd_scale(g, s, t);
            assert(g * gcd(s, t) == g * 1);
            vstd::arithmetic::mul::lemma_mul_equality_converse(g as int, gcd(s, t) as int, 1);
            assert(s <= m) by (nonlinear_arith)
                requires
                    g * s == m,
                    g > 0,
            ;
            assert(t <= d) by (nonlinear_arith)
                requires
                    g * t == d,
                    g > 0,
            ;
            assert(s > 0 && t > 0) by (nonlinear_arith)
                requires
                    g * s == m,
                    g * t == d,
                    m > 0,
                    d > 0,
            ;
            if n > 0 {
                assert(n / (g as int) == s);
                assert(reduced_num(n, d) == s);
            } else {
                assert(reduced_num(n, d) == -s);
            }
            assert(abs(reduced_num(n, d)) == s);
            assert(reduced_den(n, d) == t);
        }
    }

    /// The numerator.
    pub fn numerator(&self) -> (r: i64)
        ensures
            r == self.spec_num(),
    {
        self.numerator
    }

    /// The denominator.
    pub fn denominator(&self) -> (r: u64)
        ensures
            r == self.spec_den(),
    {
        self.denominator
    }

    /// Reduces `n / d` to lowest terms; a zero denominator gives `1 / 0`.
    pub fn new(n: i64, d: u64) -> (r: RationalNumber)
        ensures
            r == Self::spec_new(n as int, d as nat),
            r.spec_num() == reduced_num(n as int, d as nat),
            r.spec_den() == reduced_den(n as int, d as nat),
            r.wf(),
    {
        proof {
            Self::lemma_reduced(n as int, d as nat);
        }
        if d == 0 {
            RationalNumber { numerator: 1, denominator: 0 }
        } else if n == 0 {
            RationalNumber { numerator: 0, denominator: 1 }
        } else {
            let m: u64 = if n >= 0 { n as u64 } else { (-(n as i128)) as u64 };
            let g = gcd_u64(m, d);
            proof {
                lemma_gcd_divides(m as nat, d as nat);
            }
            let q: u64 = m / g;
            let numerator: i64 = if n >= 0 { q as i64 } else { (-(q as i128)) as i64 };
            RationalNumber { numerator, denominator: d / g }
        }
    }
}

/// A product of a numerator and a denominator fits in `i128`.
proof fn lemma_part_product(a: i64, b: u64)
    ensures
        i128::MIN < a * b < i128::MAX,
        i128::MIN < b * a < i128::MAX,
{
    assert(i128::MIN < a * b < i128::MAX && b * a == a * b) by (nonlinear_arith)
        requires
            i64::MIN <= a <= i64::MAX,
            0 <= b <= u64::MAX,
    ;
}

/// The numerator of `a + b` before reduction.
pub open spec fn sum_num(a: RationalNumber, b: RationalNumber) -> int {
    a.spec_num() * b.spec_den() + a.spec_den() * b.spec_num()
}

/// The numerator of `a - b` before reduction.
pub open spec fn diff_num(a: RationalNumber, b: RationalNumber) -> int {
    a.spec_num() * b.spec_den() - a.spec_den() * b.spec_num()
}

/// The denominator of `a + b`, `a - b` and `a * b` before reduction.
pub open spec fn prod_den(a: RationalNumber, b: RationalNumber) -> int {
    a.spec_den() * b.spec_den()
}

/// The numerator of `a * b` before reduction.
pub open spec fn prod_num(a: RationalNumber, b: RationalNumber) -> int {
    a.spec_num() * b.spec_num()
}

/// The parts before reduction fit `new`.
pub open spec fn fits(n: int, d: int) -> bool {
    i64::MIN <= n <= i64::MAX && d <= u64::MAX
}

impl PartialEq for RationalNumber {
    fn eq(&self, other: &RationalNumber) -> (r: bool) {
        self.numerator == other.numerator && self.denominator == other.denominator
    }
}

impl vstd::std_specs::cmp::PartialEqSpecImpl for RationalNumber {
    open spec fn obeys_eq_spec() -> bool {
        true
    }

    open spec fn eq_spec(&self, other: &RationalNumber) -> bool {
        *self == *other
    }
}

impl Textual for RationalNumber {
    /// `"(<numerator>) / (<denominator>)"`.
    open spec fn spec_text(&self) -> Seq<char> {
        seq!['('] + int_text(self.spec_num() as int) + seq![')', ' ', '/', ' ', '('] + nat_text(
            self.spec_den() as nat,
        ) + seq![')']
    }

    fn to_string(&self) -> (r: String) {
        let s = join(String::from_str("("), i64_text(self.numerator).as_str());
        let s = join(s, ") / (");
        let s = join(s, u64_text(self.denominator).as_str());
        let r = join(s, ")");
        proof {
            reveal_strlit("(");
            reveal_strlit(") / (");
            reveal_strlit(")");
        }
        r
    }
}

impl std::ops::Add for RationalNumber {
    type Output = RationalNumber;

    fn add(self, rhs: RationalNumber) -> (r: RationalNumber)
        ensures
            r.wf(),
    {
        proof {
            lemma_part_product(self.numerator, rhs.denominator);
            lemma_part_product(rhs.numerator, self.denominator);
        }
        let a = self.numerator as i128 * rhs.denominator as i128;
        let b = self.denominator as i128 * rhs.numerator as i128;
        assert(a + b == sum_num(self, rhs));
        let n = a + b;
        let d = self.denominator as u128 * rhs.denominator as u128;
        RationalNumber::new(n as i64, d as u64)
    }
}

impl vstd::std_specs::ops::AddSpecImpl for RationalNumber {
    open spec fn obeys_add_spec() -> bool {
        true
    }

    open spec fn add_req(self, rhs: RationalNumber) -> bool {
        self.sum_ok(rhs)
    }

    open spec fn add_spec(self, rhs: RationalNumber) -> RationalNumber {
        self.spec_sum(rhs)
    }
}

impl std::ops::AddAssign for RationalNumber {
    fn add_assign(&mut self, rhs: RationalNumber)
        requires
            fits(sum_num(*old(self), rhs), prod_den(*old(self), rhs)),
        ensures
            *final(self) == old(self).add_spec(rhs),
    {
        *self = *self + rhs;
    }
}

impl std::ops::Sub for RationalNumber {
    type Output = RationalNumber;

    fn sub(self, rhs: RationalNumber) -> (r: RationalNumber)
        ensures
            r.wf(),
    {
        proof {
            lemma_part_product(self.numerator, rhs.denominator);
            lemma_part_product(rhs.numerator, self.denominator);
        }
        let a = self.numerator as i128 * rhs.denominator as i128;
        let b = self.denominator as i128 * rhs.numerator as i128;
        assert(a - b == diff_num(self, rhs));
        let n = a - b;
        let d = self.denominator as u128 * rhs.denominator as u128;
        RationalNumber::new(n as i64, d as u64)
    }
}

impl vstd::std_specs::ops::SubSpecImpl for RationalNumber {
    open spec fn obeys_sub_spec() -> bool {
        true
    }

    open spec fn sub_req(self, rhs: RationalNumber) -> bool {
        self.diff_ok(rhs)
    }

    open spec fn sub_spec(self, rhs: RationalNumber) -> RationalNumber {
        self.spec_diff(rhs)
    }
}

impl std::ops::SubAssign for RationalNumber {
    fn sub_assign(&mut self, rhs: RationalNumber)
        requires
            fits(diff_num(*old(self), rhs), prod_den(*old(self), rhs)),
        ensures
            *final(self) == old(self).sub_spec(rhs),
    {
        *self = *self - rhs;
    }
}

impl std::ops::Mul for RationalNumber {
    type Output = RationalNumber;

    fn mul(self, rhs: RationalNumber) -> (r: RationalNumber)
        ensures
            r.wf(),
    {
        assert(self.numerator * rhs.numerator <= i128::MAX) by (nonlinear_arith)
            requires
                i64::MIN <= self.numerator <= i64::MAX,
                i64::MIN <= rhs.numerator <= i64::MAX,
        ;
        let n = self.numerator as i128 * rhs.numerator as i128;
        let d = self.denominator as u128 * rhs.denominator as u128;
        RationalNumber::new(n as i64, d as u64)
    }
}

impl vstd::std_specs::ops::MulSpecImpl for RationalNumber {
    open spec fn obeys_mul_spec() -> bool {
        true
    }

    open spec fn mul_req(self, rhs: RationalNumber) -> bool {
        self.prod_ok(rhs)
    }

    open spec fn mul_spec(self, rhs: RationalNumber) -> RationalNumber {
        self.spec_prod(rhs)
    }
}

impl std::ops::MulAssign for RationalNumber {
    fn mul_assign(&mut self, rhs: RationalNumber)
        requires
            fits(prod_num(*old(self), rhs), prod_den(*old(self), rhs)),
        ensures
            *final(self) == old(self).mul_spec(rhs),
    {
        *self = *self * rhs;
    }
}

impl std::ops::Neg for RationalNumber {
    type Output = RationalNumber;

    fn neg(self) -> (r: RationalNumber)
        ensures
            r.wf(),
    {
        RationalNumber::new(-self.numerator, self.denominator)
    }
}

impl vstd::std_specs::ops::NegSpecImpl for RationalNumber {
    open spec fn obeys_neg_spec() -> bool {
        true
    }

    open spec fn neg_req(self) -> bool {
        self.neg_ok()
    }

    open spec fn neg_spec(self) -> RationalNumber {
        self.spec_neg()
    }
}

impl Zero for RationalNumber {
    closed spec fn spec_zero() -> RationalNumber {
        RationalNumber { numerator: 0, denominator: 1 }
    }

    fn zero() -> (r: RationalNumber)
        ensures
            r.spec_num() == 0,
            r.spec_den() == 1,
    {
        RationalNumber::new(0, 1)
    }
}

impl Identity for RationalNumber {
    closed spec fn spec_identity() -> RationalNumber {
        RationalNumber { numerator: 1, denominator: 1 }
    }

    fn identity() -> (r: RationalNumber)
        ensures
            r.spec_num() == 1,
            r.spec_den() == 1,
    {
        proof {
            reveal_with_fuel(gcd, 2);
            assert(gcd(1, 1) == 1);
        }
        RationalNumber::new(1, 1)
    }
}

impl Inverse for RationalNumber {
    /// The inverse's numerator (the denominator, with the numerator's sign) fits `i64`.
    open spec fn inverse_req(self) -> bool {
        self.spec_num() != 0 ==> i64::MIN <= signed(self.spec_num() as int, self.spec_den() as int)
            <= i64::MAX
    }

    /// `None` exactly for zero; otherwise `den / num`, reduced (`1 / 0` gives `0 / 1`).
    open spec fn spec_inverse(self) -> Option<RationalNumber> {
        if self.spec_num() == 0 {
            None
        } else {
            Some(Self::spec_new(signed(self.spec_num() as int, self.spec_den() as int), abs(self.spec_num() as int)))
        }
    }

    fn inverse(self) -> (r: Option<RationalNumber>) {
        if self.numerator == 0 {
            return None;
        }
        let n: i128 = if self.numerator < 0 {
            -(self.denominator as i128)
        } else {
            self.denominator as i128
        };
        let m: u64 = if self.numerator < 0 {
            (-(self.numerator as i128)) as u64
        } else {
            self.numerator as u64
        };
        Some(RationalNumber::new(n as i64, m))
    }
}

/// Multiplying numerator and denominator by the same positive factor `k` gives the
/// same fraction: `new(n, d) == new(k n, k d)`.
pub proof fn lemma_new_scaled(n: i64, d: u64, k: int)
    requires
        d != 0,
        k > 0,
        fits(k * n, k * d),
    ensures
        RationalNumber::spec_new(n as int, d as nat) == RationalNumber::spec_new(k * n, (k * d) as nat),
{
    let kd = (k * d) as nat;
    assert(kd > 0) by (nonlinear_arith)
        requires
            k > 0,
            d > 0,
            kd == k * d,
    ;
    if n == 0 {
        assert(k * n == 0);
    } else {
        let m = abs(n as int);
        let g = gcd(m, d as nat);
        lemma_gcd_divides(m, d as nat);
        let s = choose|s: nat| #[trigger] (g * s) == m;
        let t = choose|t: nat| #[trigger] (g * t) == d;
        assert(abs(k * n) == k * m) by (nonlinear_arith)
            requires
                k > 0,
                m == abs(n as int),
        ;
        lemma_gcd_scale(k as nat, m, d as nat);
        let kg = k * g;
        assert(g > 0);
        assert(kg > 0) by (nonlinear_arith)
            requires
                kg == k * g,
                k > 0,
                g > 0,
        ;
        assert(k * m == kg * s && kd == kg * t) by (nonlinear_arith)
            requires
                g * s == m,
                g * t == d,
                kg == k * g,
                kd == k * d,
        ;
        vstd::arithmetic::mul::lemma_mul_is_commutative(kg, s as int);
        vstd::arithmetic::mul::lemma_mul_is_commutative(kg, t as int);
        vstd::arithmetic::mul::lemma_mul_is_commutative(g as int, s as int);
        vstd::arithmetic::mul::lemma_mul_is_commutative(g as int, t as int);
        lemma_div_by_multiple(s as int, kg);
        lemma_div_by_multiple(t as int, kg);
        lemma_div_by_multiple(s as int, g as int);
        lemma_div_by_multiple(t as int, g as int);
        assert(gcd(abs(k * n), kd) == kg);
        assert(kd as int / kg == t);
        assert(k * n != 0) by (nonlinear_arith)
            requires
                k > 0,
                n != 0,
        ;
        assert(reduced_den(k * n, kd) == t);
        assert(reduced_den(n as int, d as nat) == t);
        if n > 0 {
            assert(k * n > 0) by (nonlinear_arith)
                requires
                    k > 0,
                    n > 0,
            ;
            assert(reduced_num(k * n, kd) == s);
            assert(reduced_num(n as int, d as nat) == s);
        } else {
            assert(k * n < 0) by (nonlinear_arith)
                requires
                    k > 0,
                    n < 0,
            ;
            assert(reduced_num(k * n, kd) == -s);
            assert(reduced_num(n as int, d as nat) == -s);
        }
    }
}

/// Adding zero leaves a canonical fraction unchanged, and multiplying a defined one by
/// zero gives zero.
pub proof fn lemma_zero_laws(x: RationalNumber)
    requires
        x.wf(),
    ensures
        x.add_req(RationalNumber::spec_zero()),
        x.add_spec(RationalNumber::spec_zero()) == x,
        x.spec_den() != 0 ==> x.mul_req(RationalNumber::spec_zero()),
        x.spec_den() != 0 ==> x.mul_spec(RationalNumber::spec_zero()) == RationalNumber::spec_zero(),
{
    let z = RationalNumber::spec_zero();
    assert(z.spec_num() == 0 && z.spec_den() == 1);
    assert(x.spec_num() * 1 == x.spec_num() && x.spec_den() * 0 == 0 && x.spec_den() * 1 == x.spec_den());
    assert(x.spec_num() * 0 == 0);
    assert(sum_num(x, z) == x.spec_num());
    assert(prod_den(x, z) == x.spec_den());
    assert(prod_num(x, z) == 0);
    if x.spec_den() != 0 && x.spec_num() != 0 {
        let m = abs(x.spec_num() as int);
        vstd::arithmetic::div_mod::lemma_div_basics(m as int);
        vstd::arithmetic::div_mod::lemma_div_basics(x.spec_den() as int);
    }
}

/// Zero is `new(0, 1)`, and zero plus or times zero is zero.
pub proof fn lemma_zero_arith()
    ensures
        RationalNumber::spec_new(0, 1) == RationalNumber::spec_zero(),
        RationalNumber::spec_zero().sum_ok(RationalNumber::spec_zero()),
        RationalNumber::spec_zero().spec_sum(RationalNumber::spec_zero()) == RationalNumber::spec_zero(),
        RationalNumber::spec_zero().prod_ok(RationalNumber::spec_zero()),
        RationalNumber::spec_zero().spec_prod(RationalNumber::spec_zero()) == RationalNumber::spec_zero(),
{
    let z = RationalNumber::spec_zero();
    assert(z.spec_num() == 0 && z.spec_den() == 1);
    assert(0i64 * 1u64 == 0 && 1u64 * 0i64 == 0);
    assert(sum_num(z, z) == 0);
    assert(prod_num(z, z) == 0);
    assert(prod_den(z, z) == 1);
}

/// Zero times a defined fraction is zero.
pub proof fn lemma_zero_times(y: RationalNumber)
    requires
        y.spec_den() != 0,
    ensures
        RationalNumber::spec_zero().prod_ok(y),
        RationalNumber::spec_zero().spec_prod(y) == RationalNumber::spec_zero(),
{
    let z = RationalNumber::spec_zero();
    assert(z.spec_num() == 0 && z.spec_den() == 1);
    assert(prod_num(z, y) == 0);
    assert(prod_den(z, y) == y.spec_den());
}

} // verus!
