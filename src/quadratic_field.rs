use vstd::prelude::*;

verus! {

use vstd::std_specs::ops::{AddSpec, MulSpec, SubSpec};
use std::ops::Neg;
use crate::identities::{Identity, Zero};
use crate::quadratic_integer::{signed_of, signed_of_exec};
use crate::rational_number::RationalNumber;
use crate::text::{join, Textual};

/// `constant + first x` in `Q[x] / (x^2 - b x - c)` with the integers
/// `b == signed_of(B)` and `c == signed_of(C)`; `QuadField<0, 2>` is the field `Q(sqrt 2)`.
#[derive(Clone, Copy, Debug, Eq, Hash)]
pub struct QuadField<const B: u64, const C: u64> {
    constant: RationalNumber,
    first: RationalNumber,
}

/// The integer `n` as a fraction.
pub open spec fn whole(n: i64) -> RationalNumber {
    RationalNumber::spec_new(n as int, 1)
}

impl<const B: u64, const C: u64> QuadField<B, C> {
    pub closed spec fn spec_constant(self) -> RationalNumber {
        self.constant
    }

    pub closed spec fn spec_first(self) -> RationalNumber {
        self.first
    }

    /// The element with the given parts.
    pub closed spec fn spec_new(constant: RationalNumber, first: RationalNumber) -> QuadField<B, C> {
        QuadField { constant, first }
    }

    /// Builds `constant + first x`.
    pub fn new(constant: RationalNumber, first: RationalNumber) -> (r: QuadField<B, C>)
        ensures
            r == Self::spec_new(constant, first),
            r.spec_constant() == constant,
            r.spec_first() == first,
    {
        QuadField { constant, first }
    }

    /// The parts of `spec_new(constant, first)` are the arguments.
    pub proof fn lemma_parts(constant: RationalNumber, first: RationalNumber)
        ensures
            Self::spec_new(constant, first).spec_constant() == constant,
            Self::spec_new(constant, first).spec_first() == first,
    {
    }

    /// Two elements are equal exactly when both their parts are.
    pub proof fn lemma_eq(x: QuadField<B, C>, y: QuadField<B, C>)
        ensures
            x == y <==> (x.spec_constant() == y.spec_constant() && x.spec_first() == y.spec_first()),
    {
    }
}

impl<const B: u64, const C: u64> PartialEq for QuadField<B, C> {
    fn eq(&self, other: &QuadField<B, C>) -> (r: bool) {
        proof {
            RationalNumber::lemma_eq(self.constant, other.constant);
            RationalNumber::lemma_eq(self.first, other.first);
        }
        self.constant == other.constant && self.first == other.first
    }
}

impl<const B: u64, const C: u64> vstd::std_specs::cmp::PartialEqSpecImpl for QuadField<B, C> {
    open spec fn obeys_eq_spec() -> bool {
        true
    }

    open spec fn eq_spec(&self, other: &QuadField<B, C>) -> bool {
        *self == *other
    }
}

impl<const B: u64, const C: u64> Textual for QuadField<B, C> {
    /// `"[(<constant>) + (<first>)x]"`.
    open spec fn spec_text(&self) -> Seq<char> {
        seq!['[', '('] + self.spec_constant().spec_text() + seq![')', ' ', '+', ' ', '('] + self.spec_first().spec_text()
            + seq![')', 'x', ']']
    }

    fn to_string(&self) -> (r: String) {
        let s = join(String::from_str("[("), self.constant.to_string().as_str());
        let s = join(s, ") + (");
        let s = join(s, self.first.to_string().as_str());
        let r = join(s, ")x]");
        proof {
            reveal_strlit("[(");
            reveal_strlit(") + (");
            reveal_strlit(")x]");
        }
        r
    }
}

impl<const B: u64, const C: u64> std::ops::Add for QuadField<B, C> {
    type Output = QuadField<B, C>;

    fn add(self, rhs: QuadField<B, C>) -> (r: QuadField<B, C>) {
        QuadField { constant: self.constant + rhs.constant, first: self.first + rhs.first }
    }
}

impl<const B: u64, const C: u64> vstd::std_specs::ops::AddSpecImpl for QuadField<B, C> {
    open spec fn obeys_add_spec() -> bool {
        true
    }

    /// Both sums of fractions are defined.
    open spec fn add_req(self, rhs: QuadField<B, C>) -> bool {
        self.spec_constant().sum_ok(rhs.spec_constant()) && self.spec_first().sum_ok(rhs.spec_first())
    }

    /// Part by part.
    open spec fn add_spec(self, rhs: QuadField<B, C>) -> QuadField<B, C> {
        Self::spec_new(
            self.spec_constant().spec_sum(rhs.spec_constant()),
            self.spec_first().spec_sum(rhs.spec_first()),
        )
    }
}

impl<const B: u64, const C: u64> std::ops::AddAssign for QuadField<B, C> {
    fn add_assign(&mut self, rhs: QuadField<B, C>)
        requires
            old(self).add_req(rhs),
        ensures
            *final(self) == old(self).add_spec(rhs),
    {
        *self = *self + rhs;
    }
}

impl<const B: u64, const C: u64> std::ops::Sub for QuadField<B, C> {
    type Output = QuadField<B, C>;

    fn sub(self, rhs: QuadField<B, C>) -> (r: QuadField<B, C>) {
        QuadField { constant: self.constant - rhs.constant, first: self.first - rhs.first }
    }
}

impl<const B: u64, const C: u64> vstd::std_specs::ops::SubSpecImpl for QuadField<B, C> {
    open spec fn obeys_sub_spec() -> bool {
        true
    }

    /// Both differences of fractions are defined.
    open spec fn sub_req(self, rhs: QuadField<B, C>) -> bool {
        self.spec_constant().diff_ok(rhs.spec_constant()) && self.spec_first().diff_ok(rhs.spec_first())
    }

    /// Part by part.
    open spec fn sub_spec(self, rhs: QuadField<B, C>) -> QuadField<B, C> {
        Self::spec_new(
            self.spec_constant().spec_diff(rhs.spec_constant()),
            self.spec_first().spec_diff(rhs.spec_first()),
        )
    }
}

impl<const B: u64, const C: u64> std::ops::SubAssign for QuadField<B, C> {
    fn sub_assign(&mut self, rhs: QuadField<B, C>)
        requires
            old(self).sub_req(rhs),
        ensures
            *final(self) == old(self).sub_spec(rhs),
    {
        *self = *self - rhs;
    }
}

/// Every product and sum of fractions in `(p + q x)(r + s x)`, reduced by
/// `x^2 = b x + c`, is defined.
pub open spec fn mul_defined(
    p: RationalNumber,
    q: RationalNumber,
    r: RationalNumber,
    s: RationalNumber,
    b: i64,
    c: i64,
) -> bool {
    let qs = q.spec_prod(s);
    &&& p.prod_ok(r)
    &&& q.prod_ok(s)
    &&& qs.prod_ok(whole(c))
    &&& p.spec_prod(r).sum_ok(qs.spec_prod(whole(c)))
    &&& q.prod_ok(r)
    &&& p.prod_ok(s)
    &&& q.spec_prod(r).sum_ok(p.spec_prod(s))
    &&& qs.prod_ok(whole(b))
    &&& q.spec_prod(r).spec_sum(p.spec_prod(s)).sum_ok(qs.spec_prod(whole(b)))
}

/// The constant part of `(p + q x)(r + s x)` with `x^2 = b x + c`: `p r + q s c`.
pub open spec fn mul_constant(p: RationalNumber, q: RationalNumber, r: RationalNumber, s: RationalNumber, c: i64) -> RationalNumber {
    p.spec_prod(r).spec_sum(q.spec_prod(s).spec_prod(whole(c)))
}

/// The part in `x` of `(p + q x)(r + s x)` with `x^2 = b x + c`: `q r + p s + q s b`.
pub open spec fn mul_first(p: RationalNumber, q: RationalNumber, r: RationalNumber, s: RationalNumber, b: i64) -> RationalNumber {
    q.spec_prod(r).spec_sum(p.spec_prod(s)).spec_sum(q.spec_prod(s).spec_prod(whole(b)))
}

impl<const B: u64, const C: u64> std::ops::Mul for QuadField<B, C> {
    type Output = QuadField<B, C>;

    fn mul(self, rhs: QuadField<B, C>) -> (r: QuadField<B, C>) {
        let b = RationalNumber::new(signed_of_exec(B), 1);
        let c = RationalNumber::new(signed_of_exec(C), 1);
        let ff = self.first * rhs.first;
        let constant = self.constant * rhs.constant + ff * c;
        let first = self.first * rhs.constant + self.constant * rhs.first + ff * b;
        QuadField { constant, first }
    }
}

impl<const B: u64, const C: u64> vstd::std_specs::ops::MulSpecImpl for QuadField<B, C> {
    open spec fn obeys_mul_spec() -> bool {
        true
    }

    /// Every product and sum of fractions on the way is defined.
    open spec fn mul_req(self, rhs: QuadField<B, C>) -> bool {
        mul_defined(
            self.spec_constant(),
            self.spec_first(),
            rhs.spec_constant(),
            rhs.spec_first(),
            signed_of(B),
            signed_of(C),
        )
    }

    /// The product reduced by `x^2 = b x + c`.
    open spec fn mul_spec(self, rhs: QuadField<B, C>) -> QuadField<B, C> {
        Self::spec_new(
            mul_constant(
                self.spec_constant(),
                self.spec_first(),
                rhs.spec_constant(),
                rhs.spec_first(),
                signed_of(C),
            ),
            mul_first(
                self.spec_constant(),
                self.spec_first(),
                rhs.spec_constant(),
                rhs.spec_first(),
                signed_of(B),
            ),
        )
    }
}

impl<const B: u64, const C: u64> std::ops::MulAssign for QuadField<B, C> {
    fn mul_assign(&mut self, rhs: QuadField<B, C>)
        requires
            old(self).mul_req(rhs),
        ensures
            *final(self) == old(self).mul_spec(rhs),
    {
        *self = *self * rhs;
    }
}

impl<const B: u64, const C: u64> std::ops::Neg for QuadField<B, C> {
    type Output = QuadField<B, C>;

    fn neg(self) -> (r: QuadField<B, C>) {
        QuadField { constant: self.constant.neg(), first: self.first.neg() }
    }
}

impl<const B: u64, const C: u64> vstd::std_specs::ops::NegSpecImpl for QuadField<B, C> {
    open spec fn obeys_neg_spec() -> bool {
        true
    }

    /// Both negations of fractions are defined.
    open spec fn neg_req(self) -> bool {
        self.spec_constant().neg_ok() && self.spec_first().neg_ok()
    }

    /// Both parts negated.
    open spec fn neg_spec(self) -> QuadField<B, C> {
        Self::spec_new(self.spec_constant().spec_neg(), self.spec_first().spec_neg())
    }
}

impl<const B: u64, const C: u64> Zero for QuadField<B, C> {
    /// `0 + 0 x`.
    open spec fn spec_zero() -> QuadField<B, C> {
        Self::spec_new(RationalNumber::spec_zero(), RationalNumber::spec_zero())
    }

    fn zero() -> (r: QuadField<B, C>) {
        QuadField { constant: RationalNumber::zero(), first: RationalNumber::zero() }
    }
}

impl<const B: u64, const C: u64> Identity for QuadField<B, C> {
    /// `1 + 0 x`.
    open spec fn spec_identity() -> QuadField<B, C> {
        Self::spec_new(RationalNumber::spec_identity(), RationalNumber::spec_zero())
    }

    fn identity() -> (r: QuadField<B, C>) {
        QuadField { constant: RationalNumber::identity(), first: RationalNumber::zero() }
    }
}

/// An integer as a fraction has that numerator and denominator `1`.
pub proof fn lemma_whole(n: i64)
    ensures
        whole(n).spec_num() == n,
        whole(n).spec_den() == 1,
{
    RationalNumber::lemma_reduced(n as int, 1);
    let m = crate::rational_number::abs(n as int);
    assert(m % 1 == 0);
    assert(crate::gcd::gcd(m, 1) == crate::gcd::gcd(1, 0));
    assert(crate::gcd::gcd(1, 0) == 1);
}

/// Adding zero leaves an element with canonical, defined parts unchanged, and
/// multiplying it by zero gives zero.
pub proof fn lemma_zero_laws<const B: u64, const C: u64>(x: QuadField<B, C>)
    requires
        x.spec_constant().wf(),
        x.spec_first().wf(),
        x.spec_constant().spec_den() != 0,
        x.spec_first().spec_den() != 0,
    ensures
        x.add_req(QuadField::<B, C>::spec_zero()),
        x.add_spec(QuadField::<B, C>::spec_zero()) == x,
        x.mul_req(QuadField::<B, C>::spec_zero()),
        x.mul_spec(QuadField::<B, C>::spec_zero()) == QuadField::<B, C>::spec_zero(),
{
    let z = RationalNumber::spec_zero();
    crate::rational_number::lemma_zero_laws(x.spec_constant());
    crate::rational_number::lemma_zero_laws(x.spec_first());
    crate::rational_number::lemma_zero_arith();
    lemma_whole(signed_of(B));
    lemma_whole(signed_of(C));
    crate::rational_number::lemma_zero_times(whole(signed_of(B)));
    crate::rational_number::lemma_zero_times(whole(signed_of(C)));
    QuadField::<B, C>::lemma_parts(x.spec_constant(), x.spec_first());
    QuadField::<B, C>::lemma_parts(z, z);
    QuadField::<B, C>::lemma_eq(x, QuadField::<B, C>::spec_new(x.spec_constant(), x.spec_first()));
}

} // verus!
