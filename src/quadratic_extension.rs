use vstd::prelude::*;

verus! {

use vstd::std_specs::cmp::PartialEqSpec;
use vstd::std_specs::ops::{AddSpec, MulSpec, SubSpec};
use crate::identities::Zero;
use crate::text::{join, Textual};

/// `constant + first x` in `R[x] / (x^2 - b x - c)`, where `R` is the ring of the values
/// of `T` (a finite field's quadratic extension, say).
#[derive(Clone, Copy, Debug, Hash)]
pub struct QuadExt<T> {
    constant: T,
    first: T,
    b: T,
    c: T,
}

impl<T> QuadExt<T> {
    pub closed spec fn spec_constant(self) -> T {
        self.constant
    }

    pub closed spec fn spec_first(self) -> T {
        self.first
    }

    pub closed spec fn spec_b(self) -> T {
        self.b
    }

    pub closed spec fn spec_c(self) -> T {
        self.c
    }

    /// The element with the given parts, in the ring given by `b` and `c`.
    pub closed spec fn spec_new(constant: T, first: T, b: T, c: T) -> QuadExt<T> {
        QuadExt { constant, first, b, c }
    }

    /// Builds `constant + first x` in `R[x] / (x^2 - b x - c)`.
    pub fn new(constant: T, first: T, b: T, c: T) -> (r: QuadExt<T>)
        ensures
            r == Self::spec_new(constant, first, b, c),
            r.spec_constant() == constant,
            r.spec_first() == first,
            r.spec_b() == b,
            r.spec_c() == c,
    {
        QuadExt { constant, first, b, c }
    }

    /// The parts of `spec_new(constant, first, b, c)` are the arguments.
    pub proof fn lemma_parts(constant: T, first: T, b: T, c: T)
        ensures
            Self::spec_new(constant, first, b, c).spec_constant() == constant,
            Self::spec_new(constant, first, b, c).spec_first() == first,
            Self::spec_new(constant, first, b, c).spec_b() == b,
            Self::spec_new(constant, first, b, c).spec_c() == c,
    {
    }

    /// Two elements are equal exactly when all their parts are.
    pub proof fn lemma_eq(x: QuadExt<T>, y: QuadExt<T>)
        ensures
            x == y <==> (x.spec_constant() == y.spec_constant() && x.spec_first() == y.spec_first()
                && x.spec_b() == y.spec_b() && x.spec_c() == y.spec_c()),
    {
    }
}

impl<T: Zero> QuadExt<T> {
    /// The zero of `R[x] / (x^2)`, which operands of different rings give.
    pub open spec fn mismatch() -> QuadExt<T> {
        Self::spec_new(T::spec_zero(), T::spec_zero(), T::spec_zero(), T::spec_zero())
    }

    fn mismatch_exec() -> (r: QuadExt<T>)
        ensures
            r == Self::mismatch(),
    {
        QuadExt { constant: T::zero(), first: T::zero(), b: T::zero(), c: T::zero() }
    }
}

/// The two operands lie in the same ring: their `b` and their `c` are equal by `T`'s `==`.
pub open spec fn same_ring<T: PartialEq>(x: QuadExt<T>, y: QuadExt<T>) -> bool {
    x.spec_b().eq_spec(&y.spec_b()) && x.spec_c().eq_spec(&y.spec_c())
}

/// The sum, part by part; operands of different rings give the zero of `R[x] / (x^2)`.
pub open spec fn ext_sum<T: PartialEq + std::ops::Add<Output = T> + Zero>(x: QuadExt<T>, y: QuadExt<T>) -> QuadExt<T> {
    if !same_ring(x, y) {
        QuadExt::<T>::mismatch()
    } else {
        QuadExt::spec_new(
            x.spec_constant().add_spec(y.spec_constant()),
            x.spec_first().add_spec(y.spec_first()),
            x.spec_b(),
            x.spec_c(),
        )
    }
}

/// The difference, part by part; operands of different rings give the zero of `R[x] / (x^2)`.
pub open spec fn ext_diff<T: PartialEq + std::ops::Sub<Output = T> + Zero>(x: QuadExt<T>, y: QuadExt<T>) -> QuadExt<T> {
    if !same_ring(x, y) {
        QuadExt::<T>::mismatch()
    } else {
        QuadExt::spec_new(
            x.spec_constant().sub_spec(y.spec_constant()),
            x.spec_first().sub_spec(y.spec_first()),
            x.spec_b(),
            x.spec_c(),
        )
    }
}

/// The product reduced by `x^2 = b x + c`: constant part `p r + q s c`, part in `x`
/// `q r + p s + q s b`; operands of different rings give the zero of `R[x] / (x^2)`.
pub open spec fn ext_prod<T: PartialEq + std::ops::Add<Output = T> + std::ops::Mul<Output = T> + Zero>(
    x: QuadExt<T>,
    y: QuadExt<T>,
) -> QuadExt<T> {
    if !same_ring(x, y) {
        QuadExt::<T>::mismatch()
    } else {
        let (p, q, r, s) = (x.spec_constant(), x.spec_first(), y.spec_constant(), y.spec_first());
        let qs = q.mul_spec(s);
        QuadExt::spec_new(
            p.mul_spec(r).add_spec(qs.mul_spec(x.spec_c())),
            q.mul_spec(r).add_spec(p.mul_spec(s)).add_spec(qs.mul_spec(x.spec_b())),
            x.spec_b(),
            x.spec_c(),
        )
    }
}

/// `T`'s `==`, `+` follow their specifications, and where the operands lie in the same
/// ring both sums of parts are defined.
pub open spec fn add_ready<T: PartialEq + std::ops::Add<Output = T>>(x: QuadExt<T>, y: QuadExt<T>) -> bool {
    &&& T::obeys_eq_spec()
    &&& T::obeys_add_spec()
    &&& same_ring(x, y) ==> x.spec_constant().add_req(y.spec_constant()) && x.spec_first().add_req(
        y.spec_first(),
    )
}

/// `T`'s `==`, `-` follow their specifications, and where the operands lie in the same
/// ring both differences of parts are defined.
pub open spec fn sub_ready<T: PartialEq + std::ops::Sub<Output = T>>(x: QuadExt<T>, y: QuadExt<T>) -> bool {
    &&& T::obeys_eq_spec()
    &&& T::obeys_sub_spec()
    &&& same_ring(x, y) ==> x.spec_constant().sub_req(y.spec_constant()) && x.spec_first().sub_req(
        y.spec_first(),
    )
}

/// Every product and sum of parts in `(p + q x)(r + s x)`, reduced by `x^2 = b x + c`,
/// is defined.
pub open spec fn prod_defined<T: std::ops::Add<Output = T> + std::ops::Mul<Output = T>>(
    p: T,
    q: T,
    r: T,
    s: T,
    b: T,
    c: T,
) -> bool {
    let qs = q.mul_spec(s);
    &&& p.mul_req(r)
    &&& q.mul_req(s)
    &&& qs.mul_req(c)
    &&& p.mul_spec(r).add_req(qs.mul_spec(c))
    &&& q.mul_req(r)
    &&& p.mul_req(s)
    &&& q.mul_spec(r).add_req(p.mul_spec(s))
    &&& qs.mul_req(b)
    &&& q.mul_spec(r).add_spec(p.mul_spec(s)).add_req(qs.mul_spec(b))
}

/// `T`'s `==`, `+`, `*` follow their specifications, and where the operands lie in the
/// same ring every operation on parts in the product is defined.
pub open spec fn mul_ready<T: PartialEq + std::ops::Add<Output = T> + std::ops::Mul<Output = T>>(
    x: QuadExt<T>,
    y: QuadExt<T>,
) -> bool {
    &&& T::obeys_eq_spec()
    &&& T::obeys_add_spec()
    &&& T::obeys_mul_spec()
    &&& same_ring(x, y) ==> prod_defined(
        x.spec_constant(),
        x.spec_first(),
        y.spec_constant(),
        y.spec_first(),
        x.spec_b(),
        x.spec_c(),
    )
}

impl<T: PartialEq> PartialEq for QuadExt<T> {
    fn eq(&self, other: &QuadExt<T>) -> (r: bool) {
        self.constant == other.constant && self.first == other.first && self.b == other.b
            && self.c == other.c
    }
}

impl<T: PartialEq> vstd::std_specs::cmp::PartialEqSpecImpl for QuadExt<T> {
    open spec fn obeys_eq_spec() -> bool {
        T::obeys_eq_spec()
    }

    open spec fn eq_spec(&self, other: &QuadExt<T>) -> bool {
        &&& self.spec_constant().eq_spec(&other.spec_constant())
        &&& self.spec_first().eq_spec(&other.spec_first())
        &&& self.spec_b().eq_spec(&other.spec_b())
        &&& self.spec_c().eq_spec(&other.spec_c())
    }
}

impl<T: Eq> Eq for QuadExt<T> {

}

impl<T: Textual> Textual for QuadExt<T> {
    /// `"[(<constant>) + (<first>)x]"`.
    open spec fn spec_text(&self) -> Seq<char> {
        seq!['[', '('] + self.spec_constant().spec_text() + seq![')', ' ', '+', ' ', '('] + self.spec_first().spec_text()
            + seq![')', 'x', ']']
    }

    fn to_string(&self) -> (r: String) {
        let s = join(String::from_str("[("), self.constant.to_string().as_str());
        let s = join(s, ") + (");
        let s = join(s, self.first.to_string().as_str());
        let r = join(s, ")x]");
        proof {
            reveal_strlit("[(");
            reveal_strlit(") + (");
            reveal_strlit(")x]");
        }
        r
    }
}

impl<T: Copy + std::ops::Add<Output = T> + Zero + PartialEq> std::ops::Add for QuadExt<T> {
    type Output = QuadExt<T>;

    fn add(self, rhs: QuadExt<T>) -> (r: QuadExt<T>) {
        if self.b != rhs.b || self.c != rhs.c {
            return Self::mismatch_exec();
        }
        QuadExt {
            constant: self.constant + rhs.constant,
            first: self.first + rhs.first,
            b: self.b,
            c: self.c,
        }
    }
}

impl<T: Copy + std::ops::Add<Output = T> + Zero + PartialEq> vstd::std_specs::ops::AddSpecImpl for QuadExt<T> {
    open spec fn obeys_add_spec() -> bool {
        T::obeys_eq_spec() && T::obeys_add_spec()
    }

    open spec fn add_req(self, rhs: QuadExt<T>) -> bool {
        add_ready(self, rhs)
    }

    open spec fn add_spec(self, rhs: QuadExt<T>) -> QuadExt<T> {
        ext_sum(self, rhs)
    }
}

impl<T: Copy + std::ops::Add<Output = T> + Zero + PartialEq> std::ops::AddAssign for QuadExt<T> {
    fn add_assign(&mut self, rhs: QuadExt<T>)
        requires
            add_ready(*old(self), rhs),
        ensures
            *final(self) == ext_sum(*old(self), rhs),
    {
        *self = *self + rhs;
    }
}

impl<T: Copy + std::ops::Sub<Output = T> + Zero + PartialEq> std::ops::Sub for QuadExt<T> {
    type Output = QuadExt<T>;

    fn sub(self, rhs: QuadExt<T>) -> (r: QuadExt<T>) {
        if self.b != rhs.b || self.c != rhs.c {
            return Self::mismatch_exec();
        }
        QuadExt {
            constant: self.constant - rhs.constant,
            first: self.first - rhs.first,
            b: self.b,
            c: self.c,
        }
    }
}

impl<T: Copy + std::ops::Sub<Output = T> + Zero + PartialEq> vstd::std_specs::ops::SubSpecImpl for QuadExt<T> {
    open spec fn obeys_sub_spec() -> bool {
        T::obeys_eq_spec() && T::obeys_sub_spec()
    }

    open spec fn sub_req(self, rhs: QuadExt<T>) -> bool {
        sub_ready(self, rhs)
    }

    open spec fn sub_spec(self, rhs: QuadExt<T>) -> QuadExt<T> {
        ext_diff(self, rhs)
    }
}

impl<T: Copy + std::ops::Sub<Output = T> + Zero + PartialEq> std::ops::SubAssign for QuadExt<T> {
    fn sub_assign(&mut self, rhs: QuadExt<T>)
        requires
            sub_ready(*old(self), rhs),
        ensures
            *final(self) == ext_diff(*old(self), rhs),
    {
        *self = *self - rhs;
    }
}

impl<T: Copy + std::ops::Add<Output = T> + std::ops::Mul<Output = T> + Zero + PartialEq> std::ops::Mul for QuadExt<T> {
    type Output = QuadExt<T>;

    fn mul(self, rhs: QuadExt<T>) -> (r: QuadExt<T>) {
        if self.b != rhs.b || self.c != rhs.c {
            return Self::mismatch_exec();
        }
        let ff = self.first * rhs.first;
        let cc = self.constant * rhs.constant;
        let ffc = ff * self.c;
        let constant = cc + ffc;
        let fc = self.first * rhs.constant;
        let cf = self.constant * rhs.first;
        let cross = fc + cf;
        let ffb = ff * self.b;
        let first = cross + ffb;
        QuadExt { constant, first, b: self.b, c: self.c }
    }
}

impl<T: Copy + std::ops::Add<Output = T> + std::ops::Mul<Output = T> + Zero + PartialEq> vstd::std_specs::ops::MulSpecImpl for QuadExt<T> {
    open spec fn obeys_mul_spec() -> bool {
        T::obeys_eq_spec() && T::obeys_add_spec() && T::obeys_mul_spec()
    }

    open spec fn mul_req(self, rhs: QuadExt<T>) -> bool {
        mul_ready(self, rhs)
    }

    open spec fn mul_spec(self, rhs: QuadExt<T>) -> QuadExt<T> {
        ext_prod(self, rhs)
    }
}

impl<T: Copy + std::ops::Add<Output = T> + std::ops::Mul<Output = T> + Zero + PartialEq> std::ops::MulAssign for QuadExt<T> {
    fn mul_assign(&mut self, rhs: QuadExt<T>)
        requires
            mul_ready(*old(self), rhs),
        ensures
            *final(self) == ext_prod(*old(self), rhs),
    {
        *self = *self * rhs;
    }
}

} // verus!
