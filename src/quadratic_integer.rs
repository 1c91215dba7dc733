use vstd::prelude::*;

verus! {

use vstd::std_specs::ops::{AddSpec, MulSpec};
use crate::identities::{Identity, Zero};
use crate::text::{i64_text, int_text, join, Textual};

/// The `i64` whose two's complement bit pattern is `n`: how the type parameters of
/// `QuadInt` and `QuadField` carry signed coefficients (`u64::MAX` stands for `-1`).
pub open spec fn signed_of(n: u64) -> i64 {
    if n <= i64::MAX as u64 {
        n as i64
    } else {
        (n - 0x1_0000_0000_0000_0000) as i64
    }
}

/// `signed_of(n)`, computed.
pub fn signed_of_exec(n: u64) -> (r: i64)
    ensures
        r == signed_of(n),
{
    if n <= i64::MAX as u64 {
        n as i64
    } else {
        (n as i128 - 0x1_0000_0000_0000_0000i128) as i64
    }
}

/// `constant + first x` in `Z[x] / (x^2 - b x - c)` with `b == signed_of(B)` and
/// `c == signed_of(C)`, over wrapping 64-bit integers; `QuadInt<0, { u64::MAX }>` is
/// the Gaussian integers `Z[i]`.
#[derive(Clone, Copy, Debug, Eq, Hash)]
pub struct QuadInt<const B: u64, const C: u64> {
    constant: i64,
    first: i64,
}

impl<const B: u64, const C: u64> QuadInt<B, C> {
    pub closed spec fn spec_constant(self) -> i64 {
        self.constant
    }

    pub closed spec fn spec_first(self) -> i64 {
        self.first
    }

    /// The element with the given coefficients.
    pub closed spec fn spec_new(constant: i64, first: i64) -> QuadInt<B, C> {
        QuadInt { constant, first }
    }

    /// Builds `constant + first x`.
    pub fn new(constant: i64, first: i64) -> (r: QuadInt<B, C>)
        ensures
            r == Self::spec_new(constant, first),
            r.spec_constant() == constant,
            r.spec_first() == first,
    {
        QuadInt { constant, first }
    }

    /// The parts of `spec_new(constant, first)` are the arguments.
    pub proof fn lemma_parts(constant: i64, first: i64)
        ensures
            Self::spec_new(constant, first).spec_constant() == constant,
            Self::spec_new(constant, first).spec_first() == first,
    {
    }

    /// Two elements are equal exactly when both their parts are.
    pub proof fn lemma_eq(x: QuadInt<B, C>, y: QuadInt<B, C>)
        ensures
            x == y <==> (x.spec_constant() == y.spec_constant() && x.spec_first() == y.spec_first()),
    {
    }
}

impl<const B: u64, const C: u64> PartialEq for QuadInt<B, C> {
    fn eq(&self, other: &QuadInt<B, C>) -> (r: bool) {
        self.constant == other.constant && self.first == other.first
    }
}

impl<const B: u64, const C: u64> vstd::std_specs::cmp::PartialEqSpecImpl for QuadInt<B, C> {
    open spec fn obeys_eq_spec() -> bool {
        true
    }

    open spec fn eq_spec(&self, other: &QuadInt<B, C>) -> bool {
        *self == *other
    }
}

impl<const B: u64, const C: u64> Textual for QuadInt<B, C> {
    /// `"[<constant> + <first>x]"`.
    open spec fn spec_text(&self) -> Seq<char> {
        seq!['['] + int_text(self.spec_constant() as int) + seq![' ', '+', ' '] + int_text(
            self.spec_first() as int,
        ) + seq!['x', ']']
    }

    fn to_string(&self) -> (r: String) {
        let s = join(String::from_str("["), i64_text(self.constant).as_str());
        let s = join(s, " + ");
        let s = join(s, i64_text(self.first).as_str());
        let r = join(s, "x]");
        proof {
            reveal_strlit("[");
            reveal_strlit(" + ");
            reveal_strlit("x]");
        }
        r
    }
}

impl<const B: u64, const C: u64> std::ops::Add for QuadInt<B, C> {
    type Output = QuadInt<B, C>;

    fn add(self, rhs: QuadInt<B, C>) -> (r: QuadInt<B, C>) {
        QuadInt {
            constant: self.constant.wrapping_add(rhs.constant),
            first: self.first.wrapping_add(rhs.first),
        }
    }
}

impl<const B: u64, const C: u64> vstd::std_specs::ops::AddSpecImpl for QuadInt<B, C> {
    open spec fn obeys_add_spec() -> bool {
        true
    }

    open spec fn add_req(self, rhs: QuadInt<B, C>) -> bool {
        true
    }

    /// Part by part, wrapping.
    open spec fn add_spec(self, rhs: QuadInt<B, C>) -> QuadInt<B, C> {
        Self::spec_new(
            self.spec_constant().wrapping_add(rhs.spec_constant()),
            self.spec_first().wrapping_add(rhs.spec_first()),
        )
    }
}

impl<const B: u64, const C: u64> std::ops::AddAssign for QuadInt<B, C> {
    fn add_assign(&mut self, rhs: QuadInt<B, C>)
        ensures
            *final(self) == vstd::std_specs::ops::AddSpec::add_spec(*old(self), rhs),
    {
        *self = *self + rhs;
    }
}

impl<const B: u64, const C: u64> std::ops::Sub for QuadInt<B, C> {
    type Output = QuadInt<B, C>;

    fn sub(self, rhs: QuadInt<B, C>) -> (r: QuadInt<B, C>) {
        QuadInt {
            constant: self.constant.wrapping_sub(rhs.constant),
            first: self.first.wrapping_sub(rhs.first),
        }
    }
}

impl<const B: u64, const C: u64> vstd::std_specs::ops::SubSpecImpl for QuadInt<B, C> {
    open spec fn obeys_sub_spec() -> bool {
        true
    }

    open spec fn sub_req(self, rhs: QuadInt<B, C>) -> bool {
        true
    }

    /// Part by part, wrapping.
    open spec fn sub_spec(self, rhs: QuadInt<B, C>) -> QuadInt<B, C> {
        Self::spec_new(
            self.spec_constant().wrapping_sub(rhs.spec_constant()),
            self.spec_first().wrapping_sub(rhs.spec_first()),
        )
    }
}

impl<const B: u64, const C: u64> std::ops::SubAssign for QuadInt<B, C> {
    fn sub_assign(&mut self, rhs: QuadInt<B, C>)
        ensures
            *final(self) == vstd::std_specs::ops::SubSpec::sub_spec(*old(self), rhs),
    {
        *self = *self - rhs;
    }
}

/// The constant part of `(p + q x)(r + s x)` with `x^2 = b x + c`: `p r + q s c`, wrapping.
pub open spec fn mul_constant(p: i64, q: i64, r: i64, s: i64, c: i64) -> i64 {
    p.wrapping_mul(r).wrapping_add(q.wrapping_mul(s).wrapping_mul(c))
}

/// The part in `x` of `(p + q x)(r + s x)` with `x^2 = b x + c`: `q r + p s + q s b`, wrapping.
pub open spec fn mul_first(p: i64, q: i64, r: i64, s: i64, b: i64) -> i64 {
    q.wrapping_mul(r).wrapping_add(p.wrapping_mul(s)).wrapping_add(q.wrapping_mul(s).wrapping_mul(b))
}

impl<const B: u64, const C: u64> std::ops::Mul for QuadInt<B, C> {
    type Output = QuadInt<B, C>;

    fn mul(self, rhs: QuadInt<B, C>) -> (r: QuadInt<B, C>) {
        let b = signed_of_exec(B);
        let c = signed_of_exec(C);
        let ff = self.first.wrapping_mul(rhs.first);
        QuadInt {
            constant: self.constant.wrapping_mul(rhs.constant).wrapping_add(ff.wrapping_mul(c)),
            first: self.first.wrapping_mul(rhs.constant).wrapping_add(
                self.constant.wrapping_mul(rhs.first),
            ).wrapping_add(ff.wrapping_mul(b)),
        }
    }
}

impl<const B: u64, const C: u64> vstd::std_specs::ops::MulSpecImpl for QuadInt<B, C> {
    open spec fn obeys_mul_spec() -> bool {
        true
    }

    open spec fn mul_req(self, rhs: QuadInt<B, C>) -> bool {
        true
    }

    /// The product reduced by `x^2 = b x + c`.
    open spec fn mul_spec(self, rhs: QuadInt<B, C>) -> QuadInt<B, C> {
        Self::spec_new(
            mul_constant(
                self.spec_constant(),
                self.spec_first(),
                rhs.spec_constant(),
                rhs.spec_first(),
                signed_of(C),
            ),
            mul_first(
                self.spec_constant(),
                self.spec_first(),
                rhs.spec_constant(),
                rhs.spec_first(),
                signed_of(B),
            ),
        )
    }
}

impl<const B: u64, const C: u64> std::ops::MulAssign for QuadInt<B, C> {
    fn mul_assign(&mut self, rhs: QuadInt<B, C>)
        ensures
            *final(self) == vstd::std_specs::ops::MulSpec::mul_spec(*old(self), rhs),
    {
        *self = *self * rhs;
    }
}

impl<const B: u64, const C: u64> std::ops::Neg for QuadInt<B, C> {
    type Output = QuadInt<B, C>;

    fn neg(self) -> (r: QuadInt<B, C>) {
        QuadInt {
            constant: (0i64).wrapping_sub(self.constant),
            first: (0i64).wrapping_sub(self.first),
        }
    }
}

impl<const B: u64, const C: u64> vstd::std_specs::ops::NegSpecImpl for QuadInt<B, C> {
    open spec fn obeys_neg_spec() -> bool {
        true
    }

    open spec fn neg_req(self) -> bool {
        true
    }

    /// Both parts negated, wrapping.
    open spec fn neg_spec(self) -> QuadInt<B, C> {
        Self::spec_new(
            (0i64).wrapping_sub(self.spec_constant()),
            (0i64).wrapping_sub(self.spec_first()),
        )
    }
}

impl<const B: u64, const C: u64> Zero for QuadInt<B, C> {
    /// `0 + 0 x`.
    open spec fn spec_zero() -> QuadInt<B, C> {
        Self::spec_new(0, 0)
    }

    fn zero() -> (r: QuadInt<B, C>) {
        QuadInt { constant: 0, first: 0 }
    }
}

impl<const B: u64, const C: u64> Identity for QuadInt<B, C> {
    /// `1 + 0 x`.
    open spec fn spec_identity() -> QuadInt<B, C> {
        Self::spec_new(1, 0)
    }

    fn identity() -> (r: QuadInt<B, C>) {
        QuadInt { constant: 1, first: 0 }
    }
}

/// Adding zero leaves an element unchanged, and multiplying by zero gives zero.
pub proof fn lemma_zero_laws<const B: u64, const C: u64>(x: QuadInt<B, C>)
    ensures
        x.add_spec(QuadInt::<B, C>::spec_zero()) == x,
        x.mul_spec(QuadInt::<B, C>::spec_zero()) == QuadInt::<B, C>::spec_zero(),
{
    let (p, q) = (x.spec_constant(), x.spec_first());
    assert(p.wrapping_mul(0) == 0 && q.wrapping_mul(0) == 0);
    assert((0i64).wrapping_mul(signed_of(B)) == 0 && (0i64).wrapping_mul(signed_of(C)) == 0);
    assert((0i64).wrapping_add(0) == 0);
    QuadInt::<B, C>::lemma_parts(0, 0);
}

} // verus!
