use vstd::prelude::*;

verus! {

use vstd::std_specs::cmp::PartialEqSpec;
use vstd::std_specs::ops::{AddSpec, MulSpec};
use crate::identities::{exact_eq, total_add, total_mul, Identity, Zero};
use crate::text::{join, nat_text, u64_text, Textual};

/// A polynomial over the ring of the values of `T`: coefficient `i` is that of `x^i`.
/// Trailing zero coefficients may be held; they change neither equality nor text.
#[derive(Clone, Debug)]
pub struct Polynomial<T> {
    coefficients: Vec<T>,
}

/// Coefficient `k` of `s`, or `zero` past its end.
pub open spec fn coef<T>(s: Seq<T>, k: int, zero: T) -> T {
    if 0 <= k < s.len() {
        s[k]
    } else {
        zero
    }
}

/// The value of `s` at `x` by Horner's rule: `(..(c[n-1] x + c[n-2]) x + ..) x + c[0]`,
/// starting from `zero`.
pub open spec fn horner<T: std::ops::Add<Output = T> + std::ops::Mul<Output = T>>(
    s: Seq<T>,
    x: T,
    zero: T,
) -> T
    decreases s.len(),
{
    if s.len() == 0 {
        zero
    } else {
        horner(s.drop_first(), x, zero).mul_spec(x).add_spec(s[0])
    }
}

/// Coefficient `k` of the product of `a` and `b`: `zero + a[i] b[k - i]` over the `i < n`
/// with `0 <= k - i < b.len()`, in increasing `i`.
pub open spec fn conv<T: std::ops::Add<Output = T> + std::ops::Mul<Output = T>>(
    a: Seq<T>,
    b: Seq<T>,
    k: int,
    n: nat,
    zero: T,
) -> T
    decreases n,
{
    if n == 0 {
        zero
    } else {
        let prev = conv(a, b, k, (n - 1) as nat, zero);
        let i = n - 1;
        if 0 <= k - i < b.len() {
            prev.add_spec(a[i].mul_spec(b[k - i]))
        } else {
            prev
        }
    }
}

/// `zero + c + c + .. + c`, with `n` copies of `c`.
pub open spec fn times<T: std::ops::Add<Output = T>>(c: T, n: nat, zero: T) -> T
    decreases n,
{
    if n == 0 {
        zero
    } else {
        times(c, (n - 1) as nat, zero).add_spec(c)
    }
}

/// The sum's coefficients: `a` and `b` padded with `zero` to the longer length, added.
pub open spec fn poly_sum<T: std::ops::Add<Output = T>>(a: Seq<T>, b: Seq<T>, zero: T) -> Seq<T> {
    let n = if a.len() >= b.len() { a.len() } else { b.len() };
    Seq::new(n, |k: int| coef(a, k, zero).add_spec(coef(b, k, zero)))
}

/// The product's coefficients: `a.len() + b.len() - 1` convolutions, none when either is empty.
pub open spec fn poly_prod<T: std::ops::Add<Output = T> + std::ops::Mul<Output = T>>(
    a: Seq<T>,
    b: Seq<T>,
    zero: T,
) -> Seq<T> {
    if a.len() == 0 || b.len() == 0 {
        Seq::empty()
    } else {
        Seq::new((a.len() + b.len() - 1) as nat, |k: int| conv(a, b, k, a.len(), zero))
    }
}

/// The derivative's coefficients: `(k + 1) c[k + 1]` for `k < len - 1`.
pub open spec fn poly_derivative<T: std::ops::Add<Output = T>>(s: Seq<T>, zero: T) -> Seq<T> {
    if s.len() == 0 {
        Seq::empty()
    } else {
        Seq::new((s.len() - 1) as nat, |k: int| times(s[k + 1], (k + 1) as nat, zero))
    }
}

/// The text of the term `c x^d`: `c` alone for `d == 0`; otherwise `c` (left out where it
/// is `one`) followed by `x`, and by `^d` for `d > 1`.
pub open spec fn term_text<T: Textual>(c: T, d: nat, one: T) -> Seq<char> {
    if d == 0 {
        c.spec_text()
    } else {
        (if c == one { Seq::empty() } else { c.spec_text() }) + seq!['x'] + (if d == 1 {
            Seq::empty()
        } else {
            seq!['^'] + nat_text(d)
        })
    }
}

/// The texts of the terms with a coefficient other than `zero`, among the first `k`, in
/// increasing degree.
pub open spec fn term_texts<T: Textual>(s: Seq<T>, k: nat, zero: T, one: T) -> Seq<Seq<char>>
    decreases k,
{
    if k == 0 {
        Seq::empty()
    } else {
        let prev = term_texts(s, (k - 1) as nat, zero, one);
        if s[k - 1] == zero {
            prev
        } else {
            prev.push(term_text(s[k - 1], (k - 1) as nat, one))
        }
    }
}

/// The texts in `l` joined by `" + "`.
pub open spec fn joined(l: Seq<Seq<char>>) -> Seq<char>
    decreases l.len(),
{
    if l.len() == 0 {
        Seq::empty()
    } else if l.len() == 1 {
        l[0]
    } else {
        joined(l.drop_last()) + seq![' ', '+', ' '] + l.last()
    }
}

/// The text of the polynomial with coefficients `s`: its nonzero terms joined by `" + "`,
/// or the text of `zero` where there is none.
pub open spec fn poly_text<T: Textual>(s: Seq<T>, zero: T, one: T) -> Seq<char> {
    let l = term_texts(s, s.len(), zero, one);
    if l.len() == 0 {
        zero.spec_text()
    } else {
        joined(l)
    }
}

/// A copy of `v`.
fn copy_vec<T: Copy>(v: &Vec<T>) -> (r: Vec<T>)
    ensures
        r@ == v@,
{
    let mut r: Vec<T> = Vec::new();
    let mut i: usize = 0;
    while i < v.len()
        invariant
            i <= v@.len(),
            r@ == v@.subrange(0, i as int),
        decreases v@.len() - i,
    {
        r.push(v[i]);
        i = i + 1;
        assert(r@ =~= v@.subrange(0, i as int));
    }
    assert(r@ =~= v@);
    r
}

impl<T> Polynomial<T> {
    /// The coefficients, in increasing degree.
    pub closed spec fn spec_coefficients(&self) -> Seq<T> {
        self.coefficients@
    }
}

/// `a` and `b` agree at every degree, missing coefficients read as `zero`, by `T`'s `==`.
pub open spec fn same_coefficients<T: PartialEq>(a: Seq<T>, b: Seq<T>, zero: T) -> bool {
    forall|k: int|
        0 <= k < a.len() || 0 <= k < b.len() ==> #[trigger] coef(a, k, zero).eq_spec(&coef(b, k, zero))
}

impl<T: Copy + Zero> Polynomial<T> {
    /// The polynomial with coefficients `v`, as given.
    pub fn new(v: &Vec<T>) -> (r: Polynomial<T>)
        ensures
            r.spec_coefficients() == v@,
    {
        Polynomial { coefficients: copy_vec(v) }
    }

    /// The coefficients, in increasing degree.
    pub fn coefficients(&self) -> (r: &Vec<T>)
        ensures
            r@ == self.spec_coefficients(),
    {
        &self.coefficients
    }

    /// Coefficient `k`, or zero past the end.
    fn coef_exec(&self, k: usize) -> (r: T)
        ensures
            r == coef(self.spec_coefficients(), k as int, T::spec_zero()),
    {
        if k < self.coefficients.len() {
            self.coefficients[k]
        } else {
            T::zero()
        }
    }
}

impl<T: Copy + Zero + std::ops::Add<Output = T> + std::ops::Mul<Output = T>> Polynomial<T> {
    /// The value at `x`, by Horner's rule from the highest coefficient down.
    pub fn evaluate(&self, x: T) -> (r: T)
        requires
            total_add::<T>(),
            total_mul::<T>(),
        ensures
            r == horner(self.spec_coefficients(), x, T::spec_zero()),
    {
        let s = Ghost(self.spec_coefficients());
        let n = self.coefficients.len();
        let mut acc = T::zero();
        let mut i: usize = n;
        assert(s@.subrange(n as int, n as int) =~= Seq::<T>::empty());
        while i > 0
            invariant
                total_add::<T>(),
                total_mul::<T>(),
                s@ == self.spec_coefficients(),
                n == s@.len(),
                i <= n,
                acc == horner(s@.subrange(i as int, n as int), x, T::spec_zero()),
            decreases i,
        {
            i = i - 1;
            let c = self.coefficients[i];
            assert(s@.subrange(i as int, n as int).drop_first() =~= s@.subrange(i + 1, n as int));
            let p = acc * x;
            acc = p + c;
        }
        assert(s@.subrange(0, n as int) =~= s@);
        acc
    }

    /// The derivative: coefficient `k` is `(k + 1)` times coefficient `k + 1`, by repeated
    /// addition; the last index is `len - 2`.
    pub fn derivative(&self) -> (r: Polynomial<T>)
        requires
            total_add::<T>(),
        ensures
            r.spec_coefficients() == poly_derivative(self.spec_coefficients(), T::spec_zero()),
    {
        let n = self.coefficients.len();
        let mut v: Vec<T> = Vec::new();
        if n == 0 {
            assert(v@ =~= poly_derivative(self.spec_coefficients(), T::spec_zero()));
            return Polynomial { coefficients: v };
        }
        let ghost want = poly_derivative(self.spec_coefficients(), T::spec_zero());
        let mut k: usize = 0;
        while k < n - 1
            invariant
                total_add::<T>(),
                n == self.spec_coefficients().len(),
                n > 0,
                k <= n - 1,
                want == poly_derivative(self.spec_coefficients(), T::spec_zero()),
                v@ == want.subrange(0, k as int),
            decreases n - 1 - k,
        {
            let c = self.coefficients[k + 1];
            let mut acc = T::zero();
            let mut t: usize = 0;
            while t < k + 1
                invariant
                    total_add::<T>(),
                    k < n - 1,
                    t <= k + 1,
                    acc == times(c, t as nat, T::spec_zero()),
                decreases k + 1 - t,
            {
                acc = acc + c;
                t = t + 1;
            }
            v.push(acc);
            k = k + 1;
            assert(v@ =~= want.subrange(0, k as int));
        }
        assert(v@ =~= want);
        Polynomial { coefficients: v }
    }
}

impl<T: Copy + Zero + PartialEq> PartialEq for Polynomial<T> {
    fn eq(&self, other: &Polynomial<T>) -> (r: bool) {
        let la = self.coefficients.len();
        let lb = other.coefficients.len();
        let n = if la >= lb { la } else { lb };
        let mut k: usize = 0;
        while k < n
            invariant
                n == (if la >= lb { la } else { lb }),
                la == self.spec_coefficients().len(),
                lb == other.spec_coefficients().len(),
                k <= n,
                T::obeys_eq_spec() ==> forall|t: int|
                    0 <= t < k ==> #[trigger] coef(self.spec_coefficients(), t, T::spec_zero()).eq_spec(
                        &coef(other.spec_coefficients(), t, T::spec_zero()),
                    ),
            decreases n - k,
        {
            let x = self.coef_exec(k);
            let y = other.coef_exec(k);
            if x != y {
                return false;
            }
            k = k + 1;
        }
        true
    }
}

impl<T: Copy + Zero + PartialEq> vstd::std_specs::cmp::PartialEqSpecImpl for Polynomial<T> {
    open spec fn obeys_eq_spec() -> bool {
        T::obeys_eq_spec()
    }

    /// Equal at every degree, missing coefficients read as zero.
    open spec fn eq_spec(&self, other: &Polynomial<T>) -> bool {
        same_coefficients(self.spec_coefficients(), other.spec_coefficients(), T::spec_zero())
    }
}

impl<T: Copy + Zero + std::ops::Add<Output = T>> std::ops::Add for Polynomial<T> {
    type Output = Polynomial<T>;

    fn add(self, rhs: Polynomial<T>) -> (r: Polynomial<T>)
        ensures
            r.spec_coefficients() == poly_sum(
                self.spec_coefficients(),
                rhs.spec_coefficients(),
                T::spec_zero(),
            ),
    {
        let la = self.coefficients.len();
        let lb = rhs.coefficients.len();
        let n = if la >= lb { la } else { lb };
        let ghost want = poly_sum(self.spec_coefficients(), rhs.spec_coefficients(), T::spec_zero());
        let mut v: Vec<T> = Vec::new();
        let mut k: usize = 0;
        while k < n
            invariant
                total_add::<T>(),
                n == want.len(),
                la == self.spec_coefficients().len(),
                lb == rhs.spec_coefficients().len(),
                want == poly_sum(self.spec_coefficients(), rhs.spec_coefficients(), T::spec_zero()),
                k <= n,
                v@ == want.subrange(0, k as int),
            decreases n - k,
        {
            let x = self.coef_exec(k);
            let y = rhs.coef_exec(k);
            v.push(x + y);
            k = k + 1;
            assert(v@ =~= want.subrange(0, k as int));
        }
        assert(v@ =~= want);
        Polynomial { coefficients: v }
    }
}

impl<T: Copy + Zero + std::ops::Add<Output = T>> vstd::std_specs::ops::AddSpecImpl for Polynomial<T> {
    /// The sum is given by the `ensures` of `add`, over the coefficients.
    open spec fn obeys_add_spec() -> bool {
        false
    }

    /// `+` on the coefficients is defined everywhere.
    open spec fn add_req(self, rhs: Polynomial<T>) -> bool {
        total_add::<T>()
    }

    /// Unused, as `obeys_add_spec` is false: the `ensures` of `add` gives the coefficients.
    open spec fn add_spec(self, rhs: Polynomial<T>) -> Polynomial<T> {
        self
    }
}

impl<T: Copy + Zero + std::ops::Add<Output = T> + std::ops::Mul<Output = T>> std::ops::Mul for Polynomial<T> {
    type Output = Polynomial<T>;

    fn mul(self, rhs: Polynomial<T>) -> (r: Polynomial<T>)
        ensures
            r.spec_coefficients() == poly_prod(
                self.spec_coefficients(),
                rhs.spec_coefficients(),
                T::spec_zero(),
            ),
    {
        let la = self.coefficients.len();
        let lb = rhs.coefficients.len();
        let ghost a = self.spec_coefficients();
        let ghost b = rhs.spec_coefficients();
        let ghost want = poly_prod(a, b, T::spec_zero());
        let mut v: Vec<T> = Vec::new();
        if la == 0 || lb == 0 {
            assert(v@ =~= want);
            return Polynomial { coefficients: v };
        }
        let n = la + lb - 1;
        let mut k: usize = 0;
        while k < n
            invariant
                total_add::<T>(),
                total_mul::<T>(),
                a == self.spec_coefficients(),
                b == rhs.spec_coefficients(),
                la == a.len(),
                lb == b.len(),
                la > 0 && lb > 0,
                n == la + lb - 1,
                want == poly_prod(a, b, T::spec_zero()),
                k <= n,
                v@ == want.subrange(0, k as int),
            decreases n - k,
        {
            let mut acc = T::zero();
            let mut i: usize = 0;
            while i < la
                invariant
                    total_add::<T>(),
                    total_mul::<T>(),
                    a == self.spec_coefficients(),
                    b == rhs.spec_coefficients(),
                    la == a.len(),
                    lb == b.len(),
                    k < n,
                    n == la + lb - 1,
                    i <= la,
                    acc == conv(a, b, k as int, i as nat, T::spec_zero()),
                decreases la - i,
            {
                if i <= k && k - i < lb {
                    let p = self.coefficients[i] * rhs.coefficients[k - i];
                    acc = acc + p;
                }
                i = i + 1;
            }
            v.push(acc);
            k = k + 1;
            assert(v@ =~= want.subrange(0, k as int));
        }
        assert(v@ =~= want);
        Polynomial { coefficients: v }
    }
}

impl<T: Copy + Zero + std::ops::Add<Output = T> + std::ops::Mul<Output = T>> vstd::std_specs::ops::MulSpecImpl for Polynomial<T> {
    /// The product is given by the `ensures` of `mul`, over the coefficients.
    open spec fn obeys_mul_spec() -> bool {
        false
    }

    /// `+` and `*` on the coefficients are defined everywhere, and the product's length fits.
    open spec fn mul_req(self, rhs: Polynomial<T>) -> bool {
        &&& total_add::<T>()
        &&& total_mul::<T>()
        &&& self.spec_coefficients().len() + rhs.spec_coefficients().len() <= usize::MAX
    }

    /// Unused, as `obeys_mul_spec` is false: the `ensures` of `mul` gives the coefficients.
    open spec fn mul_spec(self, rhs: Polynomial<T>) -> Polynomial<T> {
        self
    }
}

impl<T: Copy + Zero + Identity + PartialEq + Textual> Polynomial<T> {
    /// The nonzero terms in increasing degree joined by `" + "`, each as `c`, `cx` or `cx^d`
    /// with a coefficient `1` left out of `cx` and `cx^d`; the text of zero where there
    /// is no such term.
    pub fn to_string(&self) -> (r: String)
        requires
            exact_eq::<T>(),
        ensures
            r@ == poly_text(self.spec_coefficients(), T::spec_zero(), T::spec_identity()),
    {
        let zero = T::zero();
        let one = T::identity();
        let ghost s = self.spec_coefficients();
        let n = self.coefficients.len();
        let mut out = String::new();
        let mut any = false;
        let mut k: usize = 0;
        while k < n
            invariant
                exact_eq::<T>(),
                s == self.spec_coefficients(),
                n == s.len(),
                zero == T::spec_zero(),
                one == T::spec_identity(),
                k <= n,
                any == (term_texts(s, k as nat, zero, one).len() > 0),
                out@ == joined(term_texts(s, k as nat, zero, one)),
            decreases n - k,
        {
            let c = self.coefficients[k];
            let ghost prev = term_texts(s, k as nat, zero, one);
            if !(c == zero) {
                let term = term_string(c, k, one);
                if any {
                    out = join(out, " + ");
                    proof {
                        reveal_strlit(" + ");
                    }
                }
                out = join(out, term.as_str());
                proof {
                    let next = prev.push(term_text(c, k as nat, one));
                    assert(next.drop_last() =~= prev);
                    if prev.len() == 0 {
                        assert(joined(prev) =~= Seq::<char>::empty());
                        assert(out@ =~= joined(next));
                    }
                }
                any = true;
            }
            k = k + 1;
        }
        if !any {
            return zero.to_string();
        }
        out
    }
}

/// The text of the term `c x^d` (see `term_text`).
fn term_string<T: Copy + PartialEq + Textual>(c: T, d: usize, one: T) -> (r: String)
    requires
        exact_eq::<T>(),
        d <= u64::MAX,
    ensures
        r@ == term_text(c, d as nat, one),
{
    if d == 0 {
        return c.to_string();
    }
    let head = if c == one { String::new() } else { c.to_string() };
    let with_x = join(head, "x");
    proof {
        reveal_strlit("x");
    }
    if d == 1 {
        return with_x;
    }
    let with_caret = join(with_x, "^");
    proof {
        reveal_strlit("^");
    }
    join(with_caret, u64_text(d as u64).as_str())
}

} // verus!
