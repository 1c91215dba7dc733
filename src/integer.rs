use vstd::prelude::*;

verus! {

use vstd::std_specs::ops::{AddSpec, MulSpec, SubSpec};
use crate::identities::{Identity, Zero};
use crate::ring::{add_associates, add_commutes, add_identity, distributes, mul_associates, mul_identities, ring_laws};
use vstd::arithmetic::div_mod::{lemma_add_mod_noop, lemma_mod_bound, lemma_mod_twice, lemma_mul_mod_noop_left, lemma_mul_mod_noop_right, lemma_small_mod, lemma_mod_multiples_vanish};
use vstd::wrapping::i64_specs::signed_crop;
use crate::inverse::Inverse;
use crate::text::{i64_text, int_text, join, Textual};

/// A signed 64-bit machine integer; arithmetic wraps around on overflow.
#[derive(Clone, Copy, Debug, Eq, Hash)]
pub struct Integer {
    value: i64,
}

impl Integer {
    /// The value held.
    pub closed spec fn spec_value(self) -> i64 {
        self.value
    }

    pub fn new(n: i64) -> (r: Integer)
        ensures
            r.spec_value() == n,
    {
        Integer { value: n }
    }

    pub fn to_int(&self) -> (r: i64)
        ensures
            r == self.spec_value(),
    {
        self.value
    }

    /// The values of the sum, difference and product (wrapped), and of zero and one.
    pub proof fn lemma_ops(a: Integer, b: Integer)
        ensures
            a.add_spec(b).spec_value() == a.spec_value().wrapping_add(b.spec_value()),
            a.sub_spec(b).spec_value() == a.spec_value().wrapping_sub(b.spec_value()),
            a.mul_spec(b).spec_value() == a.spec_value().wrapping_mul(b.spec_value()),
            <Integer as Zero>::spec_zero().spec_value() == 0,
            <Integer as Identity>::spec_identity().spec_value() == 1,
    {
    }

    /// Two integers are equal exactly when their values are.
    pub proof fn lemma_eq(a: Integer, b: Integer)
        ensures
            a == b <==> a.spec_value() == b.spec_value(),
    {
    }
}

impl PartialEq for Integer {
    fn eq(&self, other: &Integer) -> (r: bool) {
        self.value == other.value
    }
}

impl vstd::std_specs::cmp::PartialEqSpecImpl for Integer {
    open spec fn obeys_eq_spec() -> bool {
        true
    }

    open spec fn eq_spec(&self, other: &Integer) -> bool {
        *self == *other
    }
}

impl Textual for Integer {
    /// The decimal text, in parentheses when the value is negative.
    open spec fn spec_text(&self) -> Seq<char> {
        if self.spec_value() >= 0 {
            int_text(self.spec_value() as int)
        } else {
            seq!['('] + int_text(self.spec_value() as int) + seq![')']
        }
    }

    fn to_string(&self) -> (r: String) {
        if self.value >= 0 {
            i64_text(self.value)
        } else {
            let open = String::from_str("(");
            let digits = i64_text(self.value);
            let s = join(open, digits.as_str());
            let r = join(s, ")");
            proof {
                reveal_strlit("(");
                reveal_strlit(")");
            }
            r
        }
    }
}

impl std::ops::Add for Integer {
    type Output = Integer;

    fn add(self, rhs: Integer) -> (r: Integer)
        ensures
            r.spec_value() == self.spec_value().wrapping_add(rhs.spec_value()),
    {
        Integer { value: self.value.wrapping_add(rhs.value) }
    }
}

impl vstd::std_specs::ops::AddSpecImpl for Integer {
    open spec fn obeys_add_spec() -> bool {
        true
    }

    open spec fn add_req(self, rhs: Integer) -> bool {
        true
    }

    /// The wrapped sum.
    closed spec fn add_spec(self, rhs: Integer) -> Integer {
        Integer { value: self.value.wrapping_add(rhs.value) }
    }
}

impl std::ops::AddAssign for Integer {
    fn add_assign(&mut self, rhs: Integer)
        ensures
            final(self).spec_value() == old(self).spec_value().wrapping_add(rhs.spec_value()),
    {
        self.value = self.value.wrapping_add(rhs.value);
    }
}

impl std::ops::Sub for Integer {
    type Output = Integer;

    fn sub(self, rhs: Integer) -> (r: Integer)
        ensures
            r.spec_value() == self.spec_value().wrapping_sub(rhs.spec_value()),
    {
        Integer { value: self.value.wrapping_sub(rhs.value) }
    }
}

impl vstd::std_specs::ops::SubSpecImpl for Integer {
    open spec fn obeys_sub_spec() -> bool {
        true
    }

    open spec fn sub_req(self, rhs: Integer) -> bool {
        true
    }

    /// The wrapped difference.
    closed spec fn sub_spec(self, rhs: Integer) -> Integer {
        Integer { value: self.value.wrapping_sub(rhs.value) }
    }
}

impl std::ops::SubAssign for Integer {
    fn sub_assign(&mut self, rhs: Integer)
        ensures
            final(self).spec_value() == old(self).spec_value().wrapping_sub(rhs.spec_value()),
    {
        self.value = self.value.wrapping_sub(rhs.value);
    }
}

impl std::ops::Mul for Integer {
    type Output = Integer;

    fn mul(self, rhs: Integer) -> (r: Integer)
        ensures
            r.spec_value() == self.spec_value().wrapping_mul(rhs.spec_value()),
    {
        Integer { value: self.value.wrapping_mul(rhs.value) }
    }
}

impl vstd::std_specs::ops::MulSpecImpl for Integer {
    open spec fn obeys_mul_spec() -> bool {
        true
    }

    open spec fn mul_req(self, rhs: Integer) -> bool {
        true
    }

    /// The wrapped product.
    closed spec fn mul_spec(self, rhs: Integer) -> Integer {
        Integer { value: self.value.wrapping_mul(rhs.value) }
    }
}

impl std::ops::MulAssign for Integer {
    fn mul_assign(&mut self, rhs: Integer)
        ensures
            final(self).spec_value() == old(self).spec_value().wrapping_mul(rhs.spec_value()),
    {
        self.value = self.value.wrapping_mul(rhs.value);
    }
}

impl Zero for Integer {
    closed spec fn spec_zero() -> Integer {
        Integer { value: 0 }
    }

    fn zero() -> (r: Integer)
        ensures
            r.spec_value() == 0,
    {
        Integer::new(0)
    }
}

impl Identity for Integer {
    closed spec fn spec_identity() -> Integer {
        Integer { value: 1 }
    }

    fn identity() -> (r: Integer)
        ensures
            r.spec_value() == 1,
    {
        Integer::new(1)
    }
}

impl Inverse for Integer {
    open spec fn inverse_req(self) -> bool {
        true
    }

    /// Only `1` and `-1` are units; each is its own inverse.
    closed spec fn spec_inverse(self) -> Option<Integer> {
        if self.value == 1 || self.value == -1 {
            Some(self)
        } else {
            None
        }
    }

    fn inverse(self) -> (r: Option<Integer>)
        ensures
            r == (if self.spec_value() == 1 || self.spec_value() == -1 {
                Some(self)
            } else {
                None
            }),
    {
        if self.value == 1 || self.value == -1 {
            Some(self)
        } else {
            None
        }
    }
}

/// Adding zero leaves an integer unchanged, and multiplying by zero gives zero.
pub proof fn lemma_zero_laws(x: Integer)
    ensures
        x.add_spec(Integer::spec_zero()) == x,
        x.mul_spec(Integer::spec_zero()) == Integer::spec_zero(),
{
}

/// `2^64`, the modulus of wrapping arithmetic.
pub open spec fn wrap_modulus() -> int {
    0x1_0000_0000_0000_0000
}

/// Wrapping reduces modulo `2^64`; values of `i64` wrap to themselves.
proof fn lemma_crop(x: int)
    ensures
        signed_crop(x) as int % wrap_modulus() == x % wrap_modulus(),
        i64::MIN <= x <= i64::MAX ==> signed_crop(x) == x,
{
    let w = wrap_modulus();
    lemma_mod_bound(x, w);
    let r = x % w;
    if r > i64::MAX {
        lemma_mod_multiples_vanish(-1, r, w);
        assert(w * -1 + r == r - w);
        lemma_mod_twice(x, w);
    } else {
        lemma_mod_twice(x, w);
    }
    if i64::MIN <= x <= i64::MAX {
        if x >= 0 {
            lemma_small_mod(x as nat, w as nat);
        } else {
            lemma_mod_multiples_vanish(1, x, w);
            lemma_small_mod((x + w) as nat, w as nat);
        }
    }
}

/// Numbers equal modulo `2^64` wrap to the same value.
proof fn lemma_crop_eq(x: int, y: int)
    requires
        x % wrap_modulus() == y % wrap_modulus(),
    ensures
        signed_crop(x) == signed_crop(y),
{
}

/// Wrapping sums and products are the exact ones, wrapped.
proof fn lemma_wrapping(a: i64, b: i64)
    ensures
        a.wrapping_add(b) == signed_crop(a + b),
        a.wrapping_mul(b) == signed_crop(a * b),
{
    let w = wrap_modulus();
    let s = a + b;
    lemma_crop(s);
    if s > i64::MAX {
        lemma_crop(s - w);
        lemma_mod_multiples_vanish(-1, s, w);
        assert(w * -1 + s == s - w);
        lemma_crop_eq(s - w, s);
    } else if s < i64::MIN {
        lemma_crop(s + w);
        lemma_mod_multiples_vanish(1, s, w);
        lemma_crop_eq(s + w, s);
    }
}

/// Wrapping `+` and `*` on `Integer` form a ring (the integers modulo `2^64`), with zero
/// and one.
pub proof fn lemma_integer_ring()
    ensures
        ring_laws(Integer::spec_zero(), Integer::spec_identity()),
{
    let w = wrap_modulus();
    let zero = Integer::spec_zero();
    let one = Integer::spec_identity();
    assert(add_commutes::<Integer>()) by {
        reveal(add_commutes);
        assert forall|a: Integer, b: Integer| #[trigger] a.add_spec(b) == b.add_spec(a) by {
            lemma_wrapping(a.value, b.value);
            lemma_wrapping(b.value, a.value);
        }
    }
    assert(add_associates::<Integer>()) by {
        reveal(add_associates);
        assert forall|a: Integer, b: Integer, c: Integer|
            #[trigger] a.add_spec(b).add_spec(c) == a.add_spec(b.add_spec(c)) by {
            let (x, y, z) = (a.value as int, b.value as int, c.value as int);
            lemma_wrapping(a.value, b.value);
            lemma_wrapping(b.value, c.value);
            let ab = a.value.wrapping_add(b.value);
            let bc = b.value.wrapping_add(c.value);
            lemma_wrapping(ab, c.value);
            lemma_wrapping(a.value, bc);
            lemma_crop(x + y);
            lemma_crop(y + z);
            lemma_add_mod_noop(ab as int, z, w);
            lemma_add_mod_noop(x + y, z, w);
            lemma_add_mod_noop(x, bc as int, w);
            lemma_add_mod_noop(x, y + z, w);
            lemma_crop_eq(ab + z, x + y + z);
            lemma_crop_eq(x + bc, x + y + z);
        }
    }
    assert(add_identity(zero)) by {
        reveal(add_identity);
        assert forall|a: Integer| #[trigger] zero.add_spec(a) == a by {
            lemma_wrapping(0, a.value);
            lemma_crop(a.value as int);
        }
    }
    assert(mul_associates::<Integer>()) by {
        reveal(mul_associates);
        assert forall|a: Integer, b: Integer, c: Integer|
            #[trigger] a.mul_spec(b).mul_spec(c) == a.mul_spec(b.mul_spec(c)) by {
            let (x, y, z) = (a.value as int, b.value as int, c.value as int);
            lemma_wrapping(a.value, b.value);
            lemma_wrapping(b.value, c.value);
            let ab = a.value.wrapping_mul(b.value);
            let bc = b.value.wrapping_mul(c.value);
            lemma_wrapping(ab, c.value);
            lemma_wrapping(a.value, bc);
            lemma_crop(x * y);
            lemma_crop(y * z);
            lemma_mul_mod_noop_left(ab as int, z, w);
            lemma_mul_mod_noop_left(x * y, z, w);
            lemma_mul_mod_noop_right(x, bc as int, w);
            lemma_mul_mod_noop_right(x, y * z, w);
            vstd::arithmetic::mul::lemma_mul_is_associative(x, y, z);
            lemma_crop_eq(ab * z, x * y * z);
            lemma_crop_eq(x * bc, x * y * z);
        }
    }
    assert(distributes::<Integer>()) by {
        reveal(distributes);
        assert forall|a: Integer, b: Integer, c: Integer|
            #[trigger] a.mul_spec(b.add_spec(c)) == a.mul_spec(b).add_spec(a.mul_spec(c)) by {
            let (x, y, z) = (a.value as int, b.value as int, c.value as int);
            lemma_wrapping(b.value, c.value);
            let bc = b.value.wrapping_add(c.value);
            lemma_wrapping(a.value, bc);
            lemma_wrapping(a.value, b.value);
            lemma_wrapping(a.value, c.value);
            let xy = a.value.wrapping_mul(b.value);
            let xz = a.value.wrapping_mul(c.value);
            lemma_wrapping(xy, xz);
            lemma_crop(y + z);
            lemma_crop(x * y);
            lemma_crop(x * z);
            lemma_mul_mod_noop_right(x, bc as int, w);
            lemma_mul_mod_noop_right(x, y + z, w);
            lemma_add_mod_noop(xy as int, xz as int, w);
            lemma_add_mod_noop(x * y, x * z, w);
            vstd::arithmetic::mul::lemma_mul_is_distributive_add(x, y, z);
            lemma_crop_eq(x * bc, x * (y + z));
            lemma_crop_eq(xy + xz, x * y + x * z);
        }
        assert forall|a: Integer, b: Integer, c: Integer|
            #[trigger] a.add_spec(b).mul_spec(c) == a.mul_spec(c).add_spec(b.mul_spec(c)) by {
            let (x, y, z) = (a.value as int, b.value as int, c.value as int);
            lemma_wrapping(a.value, b.value);
            let ab = a.value.wrapping_add(b.value);
            lemma_wrapping(ab, c.value);
            lemma_wrapping(a.value, c.value);
            lemma_wrapping(b.value, c.value);
            let xz = a.value.wrapping_mul(c.value);
            let yz = b.value.wrapping_mul(c.value);
            lemma_wrapping(xz, yz);
            lemma_crop(x + y);
            lemma_crop(x * z);
            lemma_crop(y * z);
            lemma_mul_mod_noop_left(ab as int, z, w);
            lemma_mul_mod_noop_left(x + y, z, w);
            lemma_add_mod_noop(xz as int, yz as int, w);
            lemma_add_mod_noop(x * z, y * z, w);
            vstd::arithmetic::mul::lemma_mul_is_distributive_add_other_way(z, x, y);
            lemma_crop_eq(ab * z, (x + y) * z);
            lemma_crop_eq(xz + yz, x * z + y * z);
        }
    }
    assert(mul_identities(zero, one)) by {
        reveal(mul_identities);
        assert forall|a: Integer|
            #[trigger] one.mul_spec(a) == a && a.mul_spec(one) == a by {
            lemma_wrapping(1, a.value);
            lemma_wrapping(a.value, 1);
            lemma_crop(a.value as int);
        }
        assert forall|a: Integer|
            #[trigger] zero.mul_spec(a) == zero && a.mul_spec(zero) == zero by {
            lemma_wrapping(0, a.value);
            lemma_wrapping(a.value, 0);
            lemma_crop(0);
        }
    }
}

} // verus!
