use vstd::prelude::*;

verus! {

use vstd::std_specs::ops::{AddSpec, MulSpec};

/// `+` is commutative.
#[verifier::opaque]
pub open spec fn add_commutes<T: std::ops::Add<Output = T>>() -> bool {
    forall|a: T, b: T| #[trigger] a.add_spec(b) == b.add_spec(a)
}

/// `+` is associative.
#[verifier::opaque]
pub open spec fn add_associates<T: std::ops::Add<Output = T>>() -> bool {
    forall|a: T, b: T, c: T| #[trigger] a.add_spec(b).add_spec(c) == a.add_spec(b.add_spec(c))
}

/// `zero` is an identity for `+`.
#[verifier::opaque]
pub open spec fn add_identity<T: std::ops::Add<Output = T>>(zero: T) -> bool {
    forall|a: T| #[trigger] zero.add_spec(a) == a
}

/// `*` is associative.
#[verifier::opaque]
pub open spec fn mul_associates<T: std::ops::Mul<Output = T>>() -> bool {
    forall|a: T, b: T, c: T| #[trigger] a.mul_spec(b).mul_spec(c) == a.mul_spec(b.mul_spec(c))
}

/// `*` distributes over `+` on both sides.
#[verifier::opaque]
pub open spec fn distributes<T: std::ops::Add<Output = T> + std::ops::Mul<Output = T>>() -> bool {
    &&& forall|a: T, b: T, c: T| #[trigger] a.mul_spec(b.add_spec(c)) == a.mul_spec(b).add_spec(a.mul_spec(c))
    &&& forall|a: T, b: T, c: T| #[trigger] a.add_spec(b).mul_spec(c) == a.mul_spec(c).add_spec(b.mul_spec(c))
}

/// `one` is an identity for `*`, and `zero` absorbs in products.
#[verifier::opaque]
pub open spec fn mul_identities<T: std::ops::Mul<Output = T>>(zero: T, one: T) -> bool {
    &&& forall|a: T| #[trigger] one.mul_spec(a) == a
    &&& forall|a: T| #[trigger] a.mul_spec(one) == a
    &&& forall|a: T| #[trigger] zero.mul_spec(a) == zero
    &&& forall|a: T| #[trigger] a.mul_spec(zero) == zero
}

/// The values of `T`, with `+`, `*`, `zero` and `one`, form a ring: `+` is associative
/// and commutative with `zero` as identity, `*` is associative with `one` as identity
/// and distributes over `+` on both sides, and `zero` absorbs in products.
pub open spec fn ring_laws<T: std::ops::Add<Output = T> + std::ops::Mul<Output = T>>(zero: T, one: T) -> bool {
    &&& add_commutes::<T>()
    &&& add_associates::<T>()
    &&& add_identity(zero)
    &&& mul_associates::<T>()
    &&& distributes::<T>()
    &&& mul_identities(zero, one)
}

/// The ring laws, one instance at a time.
pub proof fn lemma_ring<T: std::ops::Add<Output = T> + std::ops::Mul<Output = T>>(zero: T, one: T, a: T, b: T, c: T)
    requires
        ring_laws(zero, one),
    ensures
        a.add_spec(b) == b.add_spec(a),
        a.add_spec(b).add_spec(c) == a.add_spec(b.add_spec(c)),
        zero.add_spec(a) == a,
        a.add_spec(zero) == a,
        a.mul_spec(b).mul_spec(c) == a.mul_spec(b.mul_spec(c)),
        a.mul_spec(b.add_spec(c)) == a.mul_spec(b).add_spec(a.mul_spec(c)),
        a.add_spec(b).mul_spec(c) == a.mul_spec(c).add_spec(b.mul_spec(c)),
        one.mul_spec(a) == a,
        a.mul_spec(one) == a,
        zero.mul_spec(a) == zero,
        a.mul_spec(zero) == zero,
{
    assert(a.add_spec(b) == b.add_spec(a) && a.add_spec(zero) == zero.add_spec(a)) by {
        reveal(add_commutes);
    }
    assert(a.add_spec(b).add_spec(c) == a.add_spec(b.add_spec(c))) by {
        reveal(add_associates);
    }
    assert(zero.add_spec(a) == a) by {
        reveal(add_identity);
    }
    assert(a.mul_spec(b).mul_spec(c) == a.mul_spec(b.mul_spec(c))) by {
        reveal(mul_associates);
    }
    assert(a.mul_spec(b.add_spec(c)) == a.mul_spec(b).add_spec(a.mul_spec(c))
        && a.add_spec(b).mul_spec(c) == a.mul_spec(c).add_spec(b.mul_spec(c))) by {
        reveal(distributes);
    }
    assert(one.mul_spec(a) == a && a.mul_spec(one) == a && zero.mul_spec(a) == zero
        && a.mul_spec(zero) == zero) by {
        reveal(mul_identities);
    }
}

/// `zero + f(0) + f(1) + .. + f(k - 1)`, summed from the left.
pub open spec fn fsum<T: std::ops::Add<Output = T>>(zero: T, f: spec_fn(int) -> T, k: nat) -> T
    decreases k,
{
    if k == 0 {
        zero
    } else {
        fsum(zero, f, (k - 1) as nat).add_spec(f(k - 1))
    }
}

/// Sums of terms that agree are equal.
pub proof fn lemma_fsum_congr<T: std::ops::Add<Output = T>>(zero: T, f: spec_fn(int) -> T, g: spec_fn(int) -> T, k: nat)
    requires
        forall|t: int| 0 <= t < k ==> #[trigger] f(t) == g(t),
    ensures
        fsum(zero, f, k) == fsum(zero, g, k),
    decreases k,
{
    if k > 0 {
        lemma_fsum_congr(zero, f, g, (k - 1) as nat);
    }
}

/// The sum of two sums is the sum of the termwise sums.
pub proof fn lemma_fsum_add<T: std::ops::Add<Output = T> + std::ops::Mul<Output = T>>(
    zero: T,
    one: T,
    f: spec_fn(int) -> T,
    g: spec_fn(int) -> T,
    k: nat,
)
    requires
        ring_laws(zero, one),
    ensures
        fsum(zero, f, k).add_spec(fsum(zero, g, k)) == fsum(zero, |t: int| f(t).add_spec(g(t)), k),
    decreases k,
{
    let h = |t: int| f(t).add_spec(g(t));
    if k == 0 {
        lemma_ring(zero, one, zero, zero, zero);
    } else {
        let k1 = (k - 1) as nat;
        lemma_fsum_add(zero, one, f, g, k1);
        let (sf, sg) = (fsum(zero, f, k1), fsum(zero, g, k1));
        let (x, y) = (f(k - 1), g(k - 1));
        // (sf + x) + (sg + y) == (sf + sg) + (x + y)
        lemma_ring(zero, one, sf, x, sg.add_spec(y));
        lemma_ring(zero, one, x, sg, y);
        lemma_ring(zero, one, sg, x, y);
        lemma_ring(zero, one, x, sg, zero);
        lemma_ring(zero, one, sf, sg, x.add_spec(y));
        assert(fsum(zero, h, k) == fsum(zero, h, k1).add_spec(h(k - 1)));
    }
}

/// A factor on the left distributes over a sum.
pub proof fn lemma_fsum_mul_left<T: std::ops::Add<Output = T> + std::ops::Mul<Output = T>>(
    zero: T,
    one: T,
    c: T,
    f: spec_fn(int) -> T,
    k: nat,
)
    requires
        ring_laws(zero, one),
    ensures
        c.mul_spec(fsum(zero, f, k)) == fsum(zero, |t: int| c.mul_spec(f(t)), k),
    decreases k,
{
    let h = |t: int| c.mul_spec(f(t));
    if k == 0 {
        lemma_ring(zero, one, c, zero, zero);
    } else {
        let k1 = (k - 1) as nat;
        lemma_fsum_mul_left(zero, one, c, f, k1);
        lemma_ring(zero, one, c, fsum(zero, f, k1), f(k - 1));
        assert(fsum(zero, h, k) == fsum(zero, h, k1).add_spec(h(k - 1)));
    }
}

/// A factor on the right distributes over a sum.
pub proof fn lemma_fsum_mul_right<T: std::ops::Add<Output = T> + std::ops::Mul<Output = T>>(
    zero: T,
    one: T,
    c: T,
    f: spec_fn(int) -> T,
    k: nat,
)
    requires
        ring_laws(zero, one),
    ensures
        fsum(zero, f, k).mul_spec(c) == fsum(zero, |t: int| f(t).mul_spec(c), k),
    decreases k,
{
    let h = |t: int| f(t).mul_spec(c);
    if k == 0 {
        lemma_ring(zero, one, c, zero, zero);
    } else {
        let k1 = (k - 1) as nat;
        lemma_fsum_mul_right(zero, one, c, f, k1);
        lemma_ring(zero, one, fsum(zero, f, k1), f(k - 1), c);
        assert(fsum(zero, h, k) == fsum(zero, h, k1).add_spec(h(k - 1)));
    }
}

/// The order of a double sum can be exchanged.
pub proof fn lemma_fsum_swap<T: std::ops::Add<Output = T> + std::ops::Mul<Output = T>>(
    zero: T,
    one: T,
    h: spec_fn(int, int) -> T,
    n: nat,
    m: nat,
)
    requires
        ring_laws(zero, one),
    ensures
        fsum(zero, |l: int| fsum(zero, |t: int| h(l, t), m), n) == fsum(
            zero,
            |t: int| fsum(zero, |l: int| h(l, t), n),
            m,
        ),
    decreases n,
{
    let rows = |l: int| fsum(zero, |t: int| h(l, t), m);
    let cols_n = |t: int| fsum(zero, |l: int| h(l, t), n);
    if n == 0 {
        lemma_fsum_zero(zero, one, m);
        lemma_fsum_congr(zero, cols_n, |t: int| zero, m);
    } else {
        let n1 = (n - 1) as nat;
        lemma_fsum_swap(zero, one, h, n1, m);
        let cols = |t: int| fsum(zero, |l: int| h(l, t), n1);
        let last = |t: int| h(n1 as int, t);
        lemma_fsum_add(zero, one, cols, last, m);
        assert(rows(n1 as int) == fsum(zero, last, m)) by {
            lemma_fsum_congr(zero, |t: int| h(n1 as int, t), last, m);
        }
        let both = |t: int| cols(t).add_spec(last(t));
        assert forall|t: int| 0 <= t < m implies #[trigger] both(t) == cols_n(t) by {
            assert(fsum(zero, |l: int| h(l, t), n) == fsum(zero, |l: int| h(l, t), n1).add_spec(h(n1 as int, t)));
        }
        lemma_fsum_congr(zero, both, cols_n, m);
    }
}

/// A sum of zeros is zero.
pub proof fn lemma_fsum_zero<T: std::ops::Add<Output = T> + std::ops::Mul<Output = T>>(zero: T, one: T, k: nat)
    requires
        ring_laws(zero, one),
    ensures
        fsum(zero, |t: int| zero, k) == zero,
    decreases k,
{
    if k > 0 {
        lemma_fsum_zero(zero, one, (k - 1) as nat);
        lemma_ring(zero, one, zero, zero, zero);
    }
}

/// A sum whose terms are all zero but the one at `s` is that term.
pub proof fn lemma_fsum_single<T: std::ops::Add<Output = T> + std::ops::Mul<Output = T>>(
    zero: T,
    one: T,
    f: spec_fn(int) -> T,
    s: int,
    k: nat,
)
    requires
        ring_laws(zero, one),
        0 <= s < k,
        forall|t: int| 0 <= t < k && t != s ==> #[trigger] f(t) == zero,
    ensures
        fsum(zero, f, k) == f(s),
    decreases k,
{
    let k1 = (k - 1) as nat;
    if s == k - 1 {
        lemma_fsum_congr(zero, f, |t: int| zero, k1);
        lemma_fsum_zero(zero, one, k1);
        lemma_ring(zero, one, f(s), zero, zero);
    } else {
        lemma_fsum_single(zero, one, f, s, k1);
        lemma_ring(zero, one, f(s), zero, zero);
    }
}

} // verus!
