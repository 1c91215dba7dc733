use vstd::prelude::*;

verus! {

use vstd::std_specs::cmp::PartialEqSpec;
use vstd::std_specs::ops::{AddSpec, MulSpec, NegSpec, SubSpec};
use crate::identities::{total_add, total_mul, total_sub, Identity, Zero};
use crate::text::{join, Textual};

/// `re + im i` (real and imaginary parts) in `R[x] / (x^2 + 1)`, where `R` is the ring of the values of `T`.
#[derive(Clone, Copy, Debug, Hash)]
pub struct Complex<T> {
    re: T,
    im: T,
}

impl<T> Complex<T> {
    pub closed spec fn spec_re(self) -> T {
        self.re
    }

    pub closed spec fn spec_im(self) -> T {
        self.im
    }

    /// The element with the given parts.
    pub closed spec fn spec_new(re: T, im: T) -> Complex<T> {
        Complex { re, im }
    }

    /// Builds `re + im i`.
    pub fn new(re: T, im: T) -> (r: Complex<T>)
        ensures
            r == Self::spec_new(re, im),
            r.spec_re() == re,
            r.spec_im() == im,
    {
        Complex { re, im }
    }

    /// The parts of `spec_new(re, im)` are the arguments.
    pub proof fn lemma_parts(re: T, im: T)
        ensures
            Self::spec_new(re, im).spec_re() == re,
            Self::spec_new(re, im).spec_im() == im,
    {
    }

    /// Two elements are equal exactly when both their parts are.
    pub proof fn lemma_eq(x: Complex<T>, y: Complex<T>)
        ensures
            x == y <==> (x.spec_re() == y.spec_re() && x.spec_im() == y.spec_im()),
    {
    }
}

/// The sum, part by part.
pub open spec fn complex_sum<T: std::ops::Add<Output = T>>(x: Complex<T>, y: Complex<T>) -> Complex<T> {
    Complex::spec_new(
        x.spec_re().add_spec(y.spec_re()),
        x.spec_im().add_spec(y.spec_im()),
    )
}

/// The difference, part by part.
pub open spec fn complex_diff<T: std::ops::Sub<Output = T>>(x: Complex<T>, y: Complex<T>) -> Complex<T> {
    Complex::spec_new(
        x.spec_re().sub_spec(y.spec_re()),
        x.spec_im().sub_spec(y.spec_im()),
    )
}

/// The product with `i^2 = -1`: re part `a c - b d`, im part `b c + a d`.
pub open spec fn complex_prod<T: std::ops::Add<Output = T> + std::ops::Sub<Output = T> + std::ops::Mul<Output = T>>(
    x: Complex<T>,
    y: Complex<T>,
) -> Complex<T> {
    let (a, b, c, d) = (x.spec_re(), x.spec_im(), y.spec_re(), y.spec_im());
    Complex::spec_new(a.mul_spec(c).sub_spec(b.mul_spec(d)), b.mul_spec(c).add_spec(a.mul_spec(d)))
}

/// `+`, `-` and `*` on `T` are defined everywhere.
pub open spec fn ring_ready<T: std::ops::Add<Output = T> + std::ops::Sub<Output = T> + std::ops::Mul<Output = T>>() -> bool {
    total_add::<T>() && total_sub::<T>() && total_mul::<T>()
}

impl<T: PartialEq> PartialEq for Complex<T> {
    fn eq(&self, other: &Complex<T>) -> (r: bool) {
        self.re == other.re && self.im == other.im
    }
}

impl<T: PartialEq> vstd::std_specs::cmp::PartialEqSpecImpl for Complex<T> {
    open spec fn obeys_eq_spec() -> bool {
        T::obeys_eq_spec()
    }

    open spec fn eq_spec(&self, other: &Complex<T>) -> bool {
        self.spec_re().eq_spec(&other.spec_re()) && self.spec_im().eq_spec(
            &other.spec_im(),
        )
    }
}

impl<T: Eq> Eq for Complex<T> {

}

impl<T: Textual> Textual for Complex<T> {
    /// `"[(<re>) + (<im>)i]"`, with the real and the imaginary part.
    open spec fn spec_text(&self) -> Seq<char> {
        seq!['[', '('] + self.spec_re().spec_text() + seq![')', ' ', '+', ' ', '('] + self.spec_im().spec_text()
            + seq![')', 'i', ']']
    }

    fn to_string(&self) -> (r: String) {
        let s = join(String::from_str("[("), self.re.to_string().as_str());
        let s = join(s, ") + (");
        let s = join(s, self.im.to_string().as_str());
        let r = join(s, ")i]");
        proof {
            reveal_strlit("[(");
            reveal_strlit(") + (");
            reveal_strlit(")i]");
        }
        r
    }
}

impl<T: Copy + std::ops::Add<Output = T>> std::ops::Add for Complex<T> {
    type Output = Complex<T>;

    fn add(self, rhs: Complex<T>) -> (r: Complex<T>) {
        Complex { re: self.re + rhs.re, im: self.im + rhs.im }
    }
}

impl<T: Copy + std::ops::Add<Output = T>> vstd::std_specs::ops::AddSpecImpl for Complex<T> {
    open spec fn obeys_add_spec() -> bool {
        T::obeys_add_spec()
    }

    /// Both sums of parts are defined.
    open spec fn add_req(self, rhs: Complex<T>) -> bool {
        self.spec_re().add_req(rhs.spec_re()) && self.spec_im().add_req(
            rhs.spec_im(),
        )
    }

    open spec fn add_spec(self, rhs: Complex<T>) -> Complex<T> {
        complex_sum(self, rhs)
    }
}

impl<T: Copy + std::ops::Add<Output = T>> std::ops::AddAssign for Complex<T> {
    fn add_assign(&mut self, rhs: Complex<T>)
        requires
            total_add::<T>(),
        ensures
            *final(self) == complex_sum(*old(self), rhs),
    {
        *self = *self + rhs;
    }
}

impl<T: Copy + std::ops::Sub<Output = T>> std::ops::Sub for Complex<T> {
    type Output = Complex<T>;

    fn sub(self, rhs: Complex<T>) -> (r: Complex<T>) {
        Complex { re: self.re - rhs.re, im: self.im - rhs.im }
    }
}

impl<T: Copy + std::ops::Sub<Output = T>> vstd::std_specs::ops::SubSpecImpl for Complex<T> {
    open spec fn obeys_sub_spec() -> bool {
        T::obeys_sub_spec()
    }

    /// Both differences of parts are defined.
    open spec fn sub_req(self, rhs: Complex<T>) -> bool {
        self.spec_re().sub_req(rhs.spec_re()) && self.spec_im().sub_req(
            rhs.spec_im(),
        )
    }

    open spec fn sub_spec(self, rhs: Complex<T>) -> Complex<T> {
        complex_diff(self, rhs)
    }
}

impl<T: Copy + std::ops::Sub<Output = T>> std::ops::SubAssign for Complex<T> {
    fn sub_assign(&mut self, rhs: Complex<T>)
        requires
            total_sub::<T>(),
        ensures
            *final(self) == complex_diff(*old(self), rhs),
    {
        *self = *self - rhs;
    }
}

impl<T: Copy + std::ops::Add<Output = T> + std::ops::Sub<Output = T> + std::ops::Mul<Output = T>> std::ops::Mul for Complex<T> {
    type Output = Complex<T>;

    fn mul(self, rhs: Complex<T>) -> (r: Complex<T>) {
        let ac = self.re * rhs.re;
        let bd = self.im * rhs.im;
        let bc = self.im * rhs.re;
        let ad = self.re * rhs.im;
        assert(ac.sub_req(bd) && bc.add_req(ad));
        Complex { re: ac - bd, im: bc + ad }
    }
}

impl<T: Copy + std::ops::Add<Output = T> + std::ops::Sub<Output = T> + std::ops::Mul<Output = T>> vstd::std_specs::ops::MulSpecImpl for Complex<T> {
    open spec fn obeys_mul_spec() -> bool {
        T::obeys_add_spec() && T::obeys_sub_spec() && T::obeys_mul_spec()
    }

    /// `+`, `-` and `*` on `T` are defined everywhere.
    open spec fn mul_req(self, rhs: Complex<T>) -> bool {
        ring_ready::<T>()
    }

    open spec fn mul_spec(self, rhs: Complex<T>) -> Complex<T> {
        complex_prod(self, rhs)
    }
}

impl<T: Copy + std::ops::Add<Output = T> + std::ops::Sub<Output = T> + std::ops::Mul<Output = T>> std::ops::MulAssign for Complex<T> {
    fn mul_assign(&mut self, rhs: Complex<T>)
        requires
            ring_ready::<T>(),
        ensures
            *final(self) == complex_prod(*old(self), rhs),
    {
        *self = *self * rhs;
    }
}

impl<T: Copy + std::ops::Neg<Output = T>> std::ops::Neg for Complex<T> {
    type Output = Complex<T>;

    fn neg(self) -> (r: Complex<T>) {
        Complex { re: self.re.neg(), im: self.im.neg() }
    }
}

impl<T: Copy + std::ops::Neg<Output = T>> vstd::std_specs::ops::NegSpecImpl for Complex<T> {
    open spec fn obeys_neg_spec() -> bool {
        T::obeys_neg_spec()
    }

    /// Both negations of parts are defined.
    open spec fn neg_req(self) -> bool {
        self.spec_re().neg_req() && self.spec_im().neg_req()
    }

    /// Both parts negated.
    open spec fn neg_spec(self) -> Complex<T> {
        Complex::spec_new(self.spec_re().neg_spec(), self.spec_im().neg_spec())
    }
}

impl<T: Copy + Zero> Zero for Complex<T> {
    /// `0 + 0 i`.
    open spec fn spec_zero() -> Complex<T> {
        Complex::spec_new(T::spec_zero(), T::spec_zero())
    }

    fn zero() -> (r: Complex<T>) {
        Complex { re: T::zero(), im: T::zero() }
    }
}

impl<T: Copy + Zero + Identity> Identity for Complex<T> {
    /// `1 + 0 i`.
    open spec fn spec_identity() -> Complex<T> {
        Complex::spec_new(T::spec_identity(), T::spec_zero())
    }

    fn identity() -> (r: Complex<T>) {
        Complex { re: T::identity(), im: T::zero() }
    }
}

/// Where adding zero leaves every value of `T` unchanged and multiplying by zero gives
/// zero (and so `0 - 0 == 0` and `0 + 0 == 0`), the same holds of `Complex<T>`.
pub proof fn lemma_zero_laws<T: Copy + std::ops::Add<Output = T> + std::ops::Sub<Output = T> + std::ops::Mul<Output = T> + Zero>(
    x: Complex<T>,
)
    requires
        forall|t: T| #[trigger] t.add_spec(T::spec_zero()) == t,
        forall|t: T| #[trigger] t.mul_spec(T::spec_zero()) == T::spec_zero(),
        T::spec_zero().sub_spec(T::spec_zero()) == T::spec_zero(),
    ensures
        x.add_spec(Complex::<T>::spec_zero()) == x,
        x.mul_spec(Complex::<T>::spec_zero()) == Complex::<T>::spec_zero(),
{
    let z = T::spec_zero();
    assert(z.add_spec(z) == z);
    assert(x.spec_re().mul_spec(z) == z);
    assert(x.spec_im().mul_spec(z) == z);
}

} // verus!
