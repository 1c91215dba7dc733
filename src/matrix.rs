use vstd::prelude::*;

verus! {

use vstd::std_specs::ops::{AddSpec, MulSpec};
use crate::identities::{total_add, total_mul, Identity, Zero};
use crate::ring::{
    fsum,
    lemma_fsum_congr,
    lemma_fsum_mul_left,
    lemma_fsum_mul_right,
    lemma_fsum_single,
    lemma_fsum_swap,
    lemma_ring,
    ring_laws,
};

/// A dense matrix of `rows` rows and `columns` columns, not necessarily square.
#[derive(Clone)]
pub struct Matrix<T> {
    entries: Vec<Vec<T>>,
    rows: usize,
    columns: usize,
}

/// `zero + a[i][0] b[0][j] + ... + a[i][k-1] b[k-1][j]`, summed from the left.
pub open spec fn dot<T: std::ops::Add<Output = T> + std::ops::Mul<Output = T>>(
    zero: T,
    a: Seq<Seq<T>>,
    b: Seq<Seq<T>>,
    i: int,
    j: int,
    k: nat,
) -> T
    decreases k,
{
    if k == 0 {
        zero
    } else {
        dot(zero, a, b, i, j, (k - 1) as nat).add_spec(a[i][k - 1].mul_spec(b[k - 1][j]))
    }
}

/// The `rows` by `cols` product of `a` and `b` over an inner dimension `inner`.
pub open spec fn product<T: std::ops::Add<Output = T> + std::ops::Mul<Output = T>>(
    zero: T,
    a: Seq<Seq<T>>,
    b: Seq<Seq<T>>,
    rows: nat,
    inner: nat,
    cols: nat,
) -> Seq<Seq<T>> {
    Seq::new(rows, |i: int| Seq::new(cols, |j: int| dot(zero, a, b, i, j, inner)))
}

/// The `n` by `n` matrix with `one` on the diagonal and `zero` elsewhere.
pub open spec fn identity_entries<T>(zero: T, one: T, n: nat) -> Seq<Seq<T>> {
    Seq::new(n, |i: int| Seq::new(n, |j: int| if i == j { one } else { zero }))
}

/// The `r` by `c` matrix of `zero`s.
pub open spec fn zero_entries<T>(zero: T, r: nat, c: nat) -> Seq<Seq<T>> {
    Seq::new(r, |i: int| Seq::new(c, |j: int| zero))
}

/// `ans` times `now` to the power `p`, by repeated squaring over the bits of `p`
/// from the least significant up, for `n` by `n` matrices.
pub open spec fn squaring<T: std::ops::Add<Output = T> + std::ops::Mul<Output = T>>(
    zero: T,
    ans: Seq<Seq<T>>,
    now: Seq<Seq<T>>,
    n: nat,
    p: nat,
) -> Seq<Seq<T>>
    decreases p,
{
    if p == 0 {
        ans
    } else {
        let next = if p % 2 == 1 { product(zero, ans, now, n, n, n) } else { ans };
        squaring(zero, next, product(zero, now, now, n, n, n), n, p / 2)
    }
}

impl<T> Matrix<T> {
    /// The entries, row by row.
    pub closed spec fn spec_entries(&self) -> Seq<Seq<T>> {
        Seq::new(self.entries@.len(), |i: int| self.entries@[i]@)
    }

    pub closed spec fn spec_rows(&self) -> nat {
        self.rows as nat
    }

    pub closed spec fn spec_columns(&self) -> nat {
        self.columns as nat
    }

    /// There are `rows` rows of `columns` entries each.
    pub open spec fn wf(&self) -> bool {
        &&& self.spec_entries().len() == self.spec_rows()
        &&& forall|i: int|
            0 <= i < self.spec_rows() ==> #[trigger] self.spec_entries()[i].len()
                == self.spec_columns()
    }
}

impl<T: Copy> Matrix<T> {
    /// The number of rows.
    pub fn rows(&self) -> (r: usize)
        ensures
            r == self.spec_rows(),
    {
        self.rows
    }

    /// The number of columns.
    pub fn columns(&self) -> (r: usize)
        ensures
            r == self.spec_columns(),
    {
        self.columns
    }

    /// The entry in row `r`, column `c`.
    pub fn entry(&self, r: usize, c: usize) -> (x: T)
        requires
            self.wf(),
            r < self.spec_rows(),
            c < self.spec_columns(),
        ensures
            x == self.spec_entries()[r as int][c as int],
    {
        assert(self.spec_entries()[r as int].len() == self.spec_columns());
        assert(self.entries@[r as int]@ == self.spec_entries()[r as int]);
        self.entries[r][c]
    }
}

/// A row of `c` copies of `x`.
fn filled_row<T: Copy>(x: T, c: usize) -> (r: Vec<T>)
    ensures
        r@ == Seq::new(c as nat, |j: int| x),
{
    let mut r: Vec<T> = Vec::new();
    let mut j: usize = 0;
    while j < c
        invariant
            j <= c,
            r@ == Seq::new(j as nat, |t: int| x),
        decreases c - j,
    {
        r.push(x);
        j = j + 1;
    }
    r
}

impl<T: Copy + std::ops::Add<Output = T> + std::ops::Mul<Output = T> + Zero + Identity> Matrix<T> {
    /// The `r` by `c` matrix of zeros.
    pub fn new(r: usize, c: usize) -> (m: Matrix<T>)
        ensures
            m.wf(),
            m.spec_rows() == r,
            m.spec_columns() == c,
            m.spec_entries() == zero_entries(T::spec_zero(), r as nat, c as nat),
    {
        Self::filled(T::zero(), r, c)
    }

    /// The `r` by `c` matrix of `zero`s.
    fn filled(zero: T, r: usize, c: usize) -> (m: Matrix<T>)
        ensures
            m.wf(),
            m.spec_rows() == r,
            m.spec_columns() == c,
            m.spec_entries() == zero_entries(zero, r as nat, c as nat),
    {
        let mut entries: Vec<Vec<T>> = Vec::new();
        let mut i: usize = 0;
        while i < r
            invariant
                i <= r,
                entries@.len() == i,
                forall|t: int| 0 <= t < i ==> #[trigger] entries@[t]@ == Seq::new(c as nat, |j: int| zero),
            decreases r - i,
        {
            entries.push(filled_row(zero, c));
            i = i + 1;
        }
        let m = Matrix { entries, rows: r, columns: c };
        assert(m.spec_entries() =~= zero_entries(zero, r as nat, c as nat));
        m
    }

    /// The `n` by `n` matrix with `one` on the diagonal and `zero` elsewhere.
    pub fn new_id(zero: T, one: T, n: usize) -> (m: Matrix<T>)
        ensures
            m.wf(),
            m.spec_rows() == n,
            m.spec_columns() == n,
            m.spec_entries() == identity_entries(zero, one, n as nat),
    {
        let mut entries: Vec<Vec<T>> = Vec::new();
        let mut i: usize = 0;
        while i < n
            invariant
                i <= n,
                entries@.len() == i,
                forall|t: int|
                    0 <= t < i ==> #[trigger] entries@[t]@ == identity_entries(zero, one, n as nat)[t],
            decreases n - i,
        {
            let mut row = filled_row(zero, n);
            row.set(i, one);
            assert(row@ =~= identity_entries(zero, one, n as nat)[i as int]);
            entries.push(row);
            i = i + 1;
        }
        let m = Matrix { entries, rows: n, columns: n };
        assert(m.spec_entries() =~= identity_entries(zero, one, n as nat));
        m
    }

    /// Sets the entry in row `r`, column `c` to `n`.
    pub fn change_entry(&mut self, r: usize, c: usize, n: T)
        requires
            old(self).wf(),
            r < old(self).spec_rows(),
            c < old(self).spec_columns(),
        ensures
            final(self).wf(),
            final(self).spec_rows() == old(self).spec_rows(),
            final(self).spec_columns() == old(self).spec_columns(),
            final(self).spec_entries() == old(self).spec_entries().update(
                r as int,
                old(self).spec_entries()[r as int].update(c as int, n),
            ),
    {
        assert(self.spec_entries()[r as int].len() == self.spec_columns());
        assert(self.entries@[r as int]@ == self.spec_entries()[r as int]);
        self.entries[r].set(c, n);
        assert(self.spec_entries() =~= old(self).spec_entries().update(
            r as int,
            old(self).spec_entries()[r as int].update(c as int, n),
        ));
    }

    /// Adds `n` to the entry in row `r`, column `c`.
    pub fn add_to_entry(&mut self, r: usize, c: usize, n: T)
        requires
            old(self).wf(),
            r < old(self).spec_rows(),
            c < old(self).spec_columns(),
            T::obeys_add_spec(),
            old(self).spec_entries()[r as int][c as int].add_req(n),
        ensures
            final(self).wf(),
            final(self).spec_rows() == old(self).spec_rows(),
            final(self).spec_columns() == old(self).spec_columns(),
            final(self).spec_entries() == old(self).spec_entries().update(
                r as int,
                old(self).spec_entries()[r as int].update(
                    c as int,
                    old(self).spec_entries()[r as int][c as int].add_spec(n),
                ),
            ),
    {
        assert(self.spec_entries()[r as int].len() == self.spec_columns());
        assert(self.entries@[r as int]@ == self.spec_entries()[r as int]);
        let x = self.entries[r][c];
        self.change_entry(r, c, x + n);
    }

    /// The entry in row `i`, column `j` of the product of `a` and `b`.
    fn dot_exec(a: &Matrix<T>, b: &Matrix<T>, zero: T, i: usize, j: usize) -> (r: T)
        requires
            a.wf(),
            b.wf(),
            a.spec_columns() == b.spec_rows(),
            i < a.spec_rows(),
            j < b.spec_columns(),
            total_add::<T>(),
            total_mul::<T>(),
        ensures
            r == dot(zero, a.spec_entries(), b.spec_entries(), i as int, j as int, a.spec_columns()),
    {
        let mut acc = zero;
        let mut k: usize = 0;
        assert(a.spec_entries()[i as int].len() == a.spec_columns());
        assert(a.entries@[i as int]@ == a.spec_entries()[i as int]);
        while k < a.columns
            invariant
                a.wf(),
                b.wf(),
                a.spec_columns() == b.spec_rows(),
                i < a.spec_rows(),
                j < b.spec_columns(),
                total_add::<T>(),
                total_mul::<T>(),
                k <= a.columns,
                a.entries@[i as int]@ == a.spec_entries()[i as int],
                a.spec_entries()[i as int].len() == a.spec_columns(),
                acc == dot(zero, a.spec_entries(), b.spec_entries(), i as int, j as int, k as nat),
            decreases a.columns - k,
        {
            assert(b.spec_entries()[k as int].len() == b.spec_columns());
            assert(b.entries@[k as int]@ == b.spec_entries()[k as int]);
            let x = a.entries[i][k];
            let y = b.entries[k][j];
            assert(x.mul_req(y));
            let p = x * y;
            assert(acc.add_req(p));
            acc = acc + p;
            k = k + 1;
        }
        acc
    }

    /// The product of `a` and `b`; where `a` has not as many columns as `b` has rows,
    /// the 0 by 0 matrix.
    pub fn mul(a: &Matrix<T>, b: &Matrix<T>, zero: T) -> (m: Matrix<T>)
        requires
            a.wf(),
            b.wf(),
            a.spec_columns() == b.spec_rows() ==> total_add::<T>() && total_mul::<T>(),
        ensures
            m.wf(),
            a.spec_columns() != b.spec_rows() ==> m.spec_rows() == 0 && m.spec_columns() == 0
                && m.spec_entries() == Seq::<Seq<T>>::empty(),
            a.spec_columns() == b.spec_rows() ==> m.spec_rows() == a.spec_rows()
                && m.spec_columns() == b.spec_columns() && m.spec_entries() == product(
                zero,
                a.spec_entries(),
                b.spec_entries(),
                a.spec_rows(),
                a.spec_columns(),
                b.spec_columns(),
            ),
    {
        if a.columns != b.rows {
            let m = Matrix { entries: Vec::new(), rows: 0, columns: 0 };
            assert(m.spec_entries() =~= Seq::<Seq<T>>::empty());
            return m;
        }
        let ghost full = product(
            zero,
            a.spec_entries(),
            b.spec_entries(),
            a.spec_rows(),
            a.spec_columns(),
            b.spec_columns(),
        );
        let mut v: Vec<Vec<T>> = Vec::new();
        let mut i: usize = 0;
        while i < a.rows
            invariant
                a.wf(),
                b.wf(),
                a.spec_columns() == b.spec_rows(),
                total_add::<T>(),
                total_mul::<T>(),
                i <= a.rows,
                v@.len() == i,
                full == product(
                    zero,
                    a.spec_entries(),
                    b.spec_entries(),
                    a.spec_rows(),
                    a.spec_columns(),
                    b.spec_columns(),
                ),
                forall|t: int| 0 <= t < i ==> #[trigger] v@[t]@ == full[t],
            decreases a.rows - i,
        {
            let mut row: Vec<T> = Vec::new();
            let mut j: usize = 0;
            while j < b.columns
                invariant
                    a.wf(),
                    b.wf(),
                    a.spec_columns() == b.spec_rows(),
                    total_add::<T>(),
                    total_mul::<T>(),
                    i < a.rows,
                    j <= b.columns,
                    row@.len() == j,
                    forall|t: int| 0 <= t < j ==> #[trigger] row@[t] == full[i as int][t],
                    full == product(
                        zero,
                        a.spec_entries(),
                        b.spec_entries(),
                        a.spec_rows(),
                        a.spec_columns(),
                        b.spec_columns(),
                    ),
                decreases b.columns - j,
            {
                let x = Self::dot_exec(a, b, zero, i, j);
                row.push(x);
                j = j + 1;
            }
            assert(row@ =~= full[i as int]);
            v.push(row);
            i = i + 1;
        }
        let m = Matrix { entries: v, rows: a.rows, columns: b.columns };
        assert(m.spec_entries() =~= full);
        m
    }

    /// Replaces `self` by its product with `b`; leaves it as it is where `self` has not
    /// as many columns as `b` has rows.
    pub fn mul_ch(&mut self, b: &Matrix<T>, zero: T)
        requires
            old(self).wf(),
            b.wf(),
            old(self).spec_columns() == b.spec_rows() ==> total_add::<T>() && total_mul::<T>(),
        ensures
            final(self).wf(),
            old(self).spec_columns() != b.spec_rows() ==> *final(self) == *old(self),
            old(self).spec_columns() == b.spec_rows() ==> final(self).spec_rows() == old(self).spec_rows()
                && final(self).spec_columns() == b.spec_columns() && final(self).spec_entries()
                == product(
                zero,
                old(self).spec_entries(),
                b.spec_entries(),
                old(self).spec_rows(),
                old(self).spec_columns(),
                b.spec_columns(),
            ),
    {
        if self.columns != b.rows {
            return;
        }
        let m = Matrix::mul(self, b, zero);
        *self = m;
    }

    /// A copy of `self`, entry by entry.
    fn duplicate(&self) -> (m: Matrix<T>)
        requires
            self.wf(),
        ensures
            m.wf(),
            m.spec_rows() == self.spec_rows(),
            m.spec_columns() == self.spec_columns(),
            m.spec_entries() == self.spec_entries(),
    {
        let mut v: Vec<Vec<T>> = Vec::new();
        let mut i: usize = 0;
        while i < self.rows
            invariant
                self.wf(),
                i <= self.rows,
                v@.len() == i,
                forall|t: int| 0 <= t < i ==> #[trigger] v@[t]@ == self.spec_entries()[t],
            decreases self.rows - i,
        {
            assert(self.entries@[i as int]@ == self.spec_entries()[i as int]);
            let mut row: Vec<T> = Vec::new();
            let mut j: usize = 0;
            while j < self.entries[i].len()
                invariant
                    i < self.rows,
                    i < self.entries@.len(),
                    self.entries@[i as int]@ == self.spec_entries()[i as int],
                    j <= self.entries@[i as int]@.len(),
                    row@ == self.spec_entries()[i as int].subrange(0, j as int),
                decreases self.entries@[i as int]@.len() - j,
            {
                row.push(self.entries[i][j]);
                j = j + 1;
                assert(row@ =~= self.spec_entries()[i as int].subrange(0, j as int));
            }
            assert(row@ =~= self.spec_entries()[i as int]);
            v.push(row);
            i = i + 1;
        }
        let m = Matrix { entries: v, rows: self.rows, columns: self.columns };
        assert(m.spec_entries() =~= self.spec_entries());
        m
    }

    /// `a` to the power `p`, by repeated squaring over the bits of `p` from the least
    /// significant up; the 0 by 0 matrix where `a` is not square.
    pub fn mat_pow(a: &Matrix<T>, p: u64, zero: T, one: T) -> (m: Matrix<T>)
        requires
            a.wf(),
            a.spec_columns() == a.spec_rows() && p > 0 ==> total_add::<T>() && total_mul::<T>(),
        ensures
            m.wf(),
            a.spec_columns() == a.spec_rows() && p == 0 ==> m.spec_rows() == a.spec_rows()
                && m.spec_columns() == a.spec_rows() && m.spec_entries() == identity_entries(
                zero,
                one,
                a.spec_rows(),
            ),
            a.spec_columns() != a.spec_rows() ==> m.spec_rows() == 0 && m.spec_columns() == 0
                && m.spec_entries() == Seq::<Seq<T>>::empty(),
            a.spec_columns() == a.spec_rows() ==> m.spec_rows() == a.spec_rows()
                && m.spec_columns() == a.spec_rows() && m.spec_entries() == squaring(
                zero,
                identity_entries(zero, one, a.spec_rows()),
                a.spec_entries(),
                a.spec_rows(),
                p as nat,
            ),
            a.spec_columns() == a.spec_rows() && ring_laws(zero, one) ==> m.spec_entries() == power(
                zero,
                one,
                a.spec_entries(),
                a.spec_rows(),
                p as nat,
            ),
    {
        if a.columns != a.rows {
            let m = Matrix { entries: Vec::new(), rows: 0, columns: 0 };
            assert(m.spec_entries() =~= Seq::<Seq<T>>::empty());
            return m;
        }
        let n = a.rows;
        let ghost nn = n as nat;
        let mut ans = Matrix::new_id(zero, one, n);
        if p == 0 {
            proof {
                if ring_laws(zero, one) {
                    lemma_power_add(zero, one, a.spec_entries(), nn, 0, 0);
                }
            }
            return ans;
        }
        let mut now = a.duplicate();
        let mut res: u64 = p;
        while res != 0
            invariant
                total_add::<T>(),
                total_mul::<T>(),
                ans.wf(),
                now.wf(),
                ans.spec_rows() == nn && ans.spec_columns() == nn,
                now.spec_rows() == nn && now.spec_columns() == nn,
                squaring(zero, ans.spec_entries(), now.spec_entries(), nn, res as nat) == squaring(
                    zero,
                    identity_entries(zero, one, nn),
                    a.spec_entries(),
                    nn,
                    p as nat,
                ),
            decreases res,
        {
            if res % 2 == 1 {
                ans.mul_ch(&now, zero);
            }
            res = res / 2;
            let sq = Matrix::mul(&now, &now, zero);
            now = sq;
        }
        proof {
            if ring_laws(zero, one) {
                let id = identity_entries(zero, one, nn);
                assert(is_square(a.spec_entries(), nn));
                lemma_squaring(zero, one, id, a.spec_entries(), nn, p as nat);
                lemma_power_square(zero, one, a.spec_entries(), nn, p as nat);
                lemma_product_identity(zero, one, power(zero, one, a.spec_entries(), nn, p as nat), nn);
            }
        }
        ans
    }
}

/// `a` to the power `p` for an `n` by `n` matrix: the identity for `p == 0`, and
/// otherwise `a` to the power `p - 1`, times `a`.
pub open spec fn power<T: std::ops::Add<Output = T> + std::ops::Mul<Output = T>>(
    zero: T,
    one: T,
    a: Seq<Seq<T>>,
    n: nat,
    p: nat,
) -> Seq<Seq<T>>
    decreases p,
{
    if p == 0 {
        identity_entries(zero, one, n)
    } else {
        product(zero, power(zero, one, a, n, (p - 1) as nat), a, n, n, n)
    }
}

/// `a` has `n` rows of `n` entries.
pub open spec fn is_square<T>(a: Seq<Seq<T>>, n: nat) -> bool {
    a.len() == n && forall|i: int| 0 <= i < n ==> #[trigger] a[i].len() == n
}

/// A `dot` is a sum of products.
proof fn lemma_dot_fsum<T: std::ops::Add<Output = T> + std::ops::Mul<Output = T>>(
    zero: T,
    a: Seq<Seq<T>>,
    b: Seq<Seq<T>>,
    i: int,
    j: int,
    k: nat,
)
    ensures
        dot(zero, a, b, i, j, k) == fsum(zero, |t: int| a[i][t].mul_spec(b[t][j]), k),
    decreases k,
{
    if k > 0 {
        lemma_dot_fsum(zero, a, b, i, j, (k - 1) as nat);
    }
}

/// One entry of `(a b) c` equals that of `a (b c)`.
proof fn lemma_product_assoc_entry<T: std::ops::Add<Output = T> + std::ops::Mul<Output = T>>(
    zero: T,
    one: T,
    a: Seq<Seq<T>>,
    b: Seq<Seq<T>>,
    c: Seq<Seq<T>>,
    n: nat,
    i: int,
    j: int,
)
    requires
        ring_laws(zero, one),
        0 <= i < n,
        0 <= j < n,
    ensures
        dot(zero, product(zero, a, b, n, n, n), c, i, j, n) == dot(
            zero,
            a,
            product(zero, b, c, n, n, n),
            i,
            j,
            n,
        ),
{
    let ab = product(zero, a, b, n, n, n);
    let bc = product(zero, b, c, n, n, n);
    let h = |l: int, t: int| a[i][t].mul_spec(b[t][l].mul_spec(c[l][j]));
    lemma_dot_fsum(zero, ab, c, i, j, n);
    let outer = |l: int| ab[i][l].mul_spec(c[l][j]);
    let rows = |l: int| fsum(zero, |t: int| h(l, t), n);
    assert forall|l: int| 0 <= l < n implies #[trigger] outer(l) == rows(l) by {
        lemma_dot_fsum(zero, a, b, i, l, n);
        let f = |t: int| a[i][t].mul_spec(b[t][l]);
        lemma_fsum_mul_right(zero, one, c[l][j], f, n);
        let fc = |t: int| f(t).mul_spec(c[l][j]);
        let hl = |t: int| h(l, t);
        assert forall|t: int| 0 <= t < n implies #[trigger] fc(t) == hl(t) by {
            lemma_ring(zero, one, a[i][t], b[t][l], c[l][j]);
        }
        lemma_fsum_congr(zero, fc, hl, n);
    }
    lemma_fsum_congr(zero, outer, rows, n);
    lemma_fsum_swap(zero, one, h, n, n);
    let cols = |t: int| fsum(zero, |l: int| h(l, t), n);
    let inner = |t: int| a[i][t].mul_spec(bc[t][j]);
    assert forall|t: int| 0 <= t < n implies #[trigger] cols(t) == inner(t) by {
        lemma_dot_fsum(zero, b, c, t, j, n);
        let g = |l: int| b[t][l].mul_spec(c[l][j]);
        lemma_fsum_mul_left(zero, one, a[i][t], g, n);
        lemma_fsum_congr(zero, |l: int| h(l, t), |l: int| a[i][t].mul_spec(g(l)), n);
    }
    lemma_fsum_congr(zero, cols, inner, n);
    lemma_dot_fsum(zero, a, bc, i, j, n);
}

/// The product of `n` by `n` matrices is associative.
pub proof fn lemma_product_assoc<T: std::ops::Add<Output = T> + std::ops::Mul<Output = T>>(
    zero: T,
    one: T,
    a: Seq<Seq<T>>,
    b: Seq<Seq<T>>,
    c: Seq<Seq<T>>,
    n: nat,
)
    requires
        ring_laws(zero, one),
    ensures
        product(zero, product(zero, a, b, n, n, n), c, n, n, n) == product(
            zero,
            a,
            product(zero, b, c, n, n, n),
            n,
            n,
            n,
        ),
{
    let l = product(zero, product(zero, a, b, n, n, n), c, n, n, n);
    let r = product(zero, a, product(zero, b, c, n, n, n), n, n, n);
    assert forall|i: int| 0 <= i < n implies #[trigger] l[i] =~= r[i] by {
        assert forall|j: int| 0 <= j < n implies #[trigger] l[i][j] == r[i][j] by {
            lemma_product_assoc_entry(zero, one, a, b, c, n, i, j);
        }
    }
    assert(l =~= r);
}

/// The identity is neutral on both sides of an `n` by `n` matrix.
pub proof fn lemma_product_identity<T: std::ops::Add<Output = T> + std::ops::Mul<Output = T>>(
    zero: T,
    one: T,
    a: Seq<Seq<T>>,
    n: nat,
)
    requires
        ring_laws(zero, one),
        is_square(a, n),
    ensures
        product(zero, identity_entries(zero, one, n), a, n, n, n) == a,
        product(zero, a, identity_entries(zero, one, n), n, n, n) == a,
{
    let id = identity_entries(zero, one, n);
    let l = product(zero, id, a, n, n, n);
    let r = product(zero, a, id, n, n, n);
    assert forall|i: int| 0 <= i < n implies #[trigger] l[i] =~= a[i] && r[i] =~= a[i] by {
        assert forall|j: int| 0 <= j < n implies #[trigger] l[i][j] == a[i][j] && r[i][j] == a[i][j] by {
            lemma_dot_fsum(zero, id, a, i, j, n);
            let f = |t: int| id[i][t].mul_spec(a[t][j]);
            assert forall|t: int| 0 <= t < n && t != i implies #[trigger] f(t) == zero by {
                lemma_ring(zero, one, a[t][j], zero, zero);
            }
            lemma_ring(zero, one, a[i][j], zero, zero);
            lemma_fsum_single(zero, one, f, i, n);
            lemma_dot_fsum(zero, a, id, i, j, n);
            let g = |t: int| a[i][t].mul_spec(id[t][j]);
            assert forall|t: int| 0 <= t < n && t != j implies #[trigger] g(t) == zero by {
                lemma_ring(zero, one, a[i][t], zero, zero);
            }
            lemma_fsum_single(zero, one, g, j, n);
        }
    }
    assert(l =~= a);
    assert(r =~= a);
}

/// Powers of an `n` by `n` matrix are `n` by `n`.
proof fn lemma_power_square<T: std::ops::Add<Output = T> + std::ops::Mul<Output = T>>(
    zero: T,
    one: T,
    a: Seq<Seq<T>>,
    n: nat,
    p: nat,
)
    ensures
        is_square(power(zero, one, a, n, p), n),
    decreases p,
{
    if p > 0 {
        lemma_power_square(zero, one, a, n, (p - 1) as nat);
    }
}

/// Powers of an `n` by `n` matrix add: `a^p a^q == a^(p + q)`; and `a^0` is the identity.
pub proof fn lemma_power_add<T: std::ops::Add<Output = T> + std::ops::Mul<Output = T>>(
    zero: T,
    one: T,
    a: Seq<Seq<T>>,
    n: nat,
    p: nat,
    q: nat,
)
    requires
        ring_laws(zero, one),
        is_square(a, n),
    ensures
        product(zero, power(zero, one, a, n, p), power(zero, one, a, n, q), n, n, n) == power(
            zero,
            one,
            a,
            n,
            p + q,
        ),
        power(zero, one, a, n, 0) == identity_entries(zero, one, n),
    decreases q,
{
    let ap = power(zero, one, a, n, p);
    lemma_power_square(zero, one, a, n, p);
    if q == 0 {
        lemma_product_identity(zero, one, ap, n);
    } else {
        let q1 = (q - 1) as nat;
        lemma_power_add(zero, one, a, n, p, q1);
        lemma_product_assoc(zero, one, ap, power(zero, one, a, n, q1), a, n);
        assert(p + q == (p + q1) + 1);
    }
}

/// A power of the square is a power: `(a a)^k == a^(2 k)`.
proof fn lemma_power_of_square<T: std::ops::Add<Output = T> + std::ops::Mul<Output = T>>(
    zero: T,
    one: T,
    a: Seq<Seq<T>>,
    n: nat,
    k: nat,
)
    requires
        ring_laws(zero, one),
        is_square(a, n),
    ensures
        power(zero, one, product(zero, a, a, n, n, n), n, k) == power(zero, one, a, n, 2 * k),
    decreases k,
{
    if k > 0 {
        let k1 = (k - 1) as nat;
        lemma_power_of_square(zero, one, a, n, k1);
        let a2k = power(zero, one, a, n, 2 * k1);
        lemma_product_assoc(zero, one, a2k, a, a, n);
        assert(2 * k == (2 * k1 + 1) + 1);
        assert(power(zero, one, a, n, (2 * k1 + 1) as nat) == product(zero, a2k, a, n, n, n));
        assert(power(zero, one, a, n, 2 * k) == product(
            zero,
            power(zero, one, a, n, (2 * k1 + 1) as nat),
            a,
            n,
            n,
            n,
        ));
    }
}

/// Repeated squaring computes `ans` times `now` to the power `r`.
proof fn lemma_squaring<T: std::ops::Add<Output = T> + std::ops::Mul<Output = T>>(
    zero: T,
    one: T,
    ans: Seq<Seq<T>>,
    now: Seq<Seq<T>>,
    n: nat,
    r: nat,
)
    requires
        ring_laws(zero, one),
        is_square(ans, n),
        is_square(now, n),
    ensures
        squaring(zero, ans, now, n, r) == product(zero, ans, power(zero, one, now, n, r), n, n, n),
    decreases r,
{
    if r == 0 {
        lemma_product_identity(zero, one, ans, n);
    } else {
        let sq = product(zero, now, now, n, n, n);
        let k = r / 2;
        let next = if r % 2 == 1 { product(zero, ans, now, n, n, n) } else { ans };
        lemma_squaring(zero, one, next, sq, n, k);
        lemma_power_of_square(zero, one, now, n, k);
        if r % 2 == 1 {
            // (ans now) now^(2k) == ans (now now^(2k)) == ans now^(2k + 1)
            let p2k = power(zero, one, now, n, 2 * k);
            lemma_product_assoc(zero, one, ans, now, p2k, n);
            lemma_power_add(zero, one, now, n, 1, 2 * k);
            lemma_product_identity(zero, one, now, n);
            assert(power(zero, one, now, n, 1) == now);
            assert(1 + 2 * k == r);
        } else {
            assert(2 * k == r);
        }
    }
}

} // verus!
