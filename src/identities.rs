use vstd::prelude::*;

verus! {

use vstd::std_specs::cmp::PartialEqSpec;
use vstd::std_specs::ops::AddSpec;
use vstd::std_specs::ops::MulSpec;
use vstd::std_specs::ops::SubSpec;

/// Types with an additive identity.
pub trait Zero: Sized {
    /// The additive identity.
    spec fn spec_zero() -> Self;

    fn zero() -> (r: Self)
        ensures
            r == Self::spec_zero(),
    ;
}

/// Types with a multiplicative identity.
pub trait Identity: Sized {
    /// The multiplicative identity.
    spec fn spec_identity() -> Self;

    fn identity() -> (r: Self)
        ensures
            r == Self::spec_identity(),
    ;
}

/// `+` on `T` follows `add_spec` and is defined on every pair of values.
pub open spec fn total_add<T: std::ops::Add<Output = T>>() -> bool {
    &&& T::obeys_add_spec()
    &&& forall|x: T, y: T| #[trigger] x.add_req(y)
}

/// `-` on `T` follows `sub_spec` and is defined on every pair of values.
pub open spec fn total_sub<T: std::ops::Sub<Output = T>>() -> bool {
    &&& T::obeys_sub_spec()
    &&& forall|x: T, y: T| #[trigger] x.sub_req(y)
}

/// `*` on `T` follows `mul_spec` and is defined on every pair of values.
pub open spec fn total_mul<T: std::ops::Mul<Output = T>>() -> bool {
    &&& T::obeys_mul_spec()
    &&& forall|x: T, y: T| #[trigger] x.mul_req(y)
}

/// `==` on `T` is equality of values.
pub open spec fn exact_eq<T: PartialEq>() -> bool {
    &&& T::obeys_eq_spec()
    &&& forall|x: T, y: T| #[trigger] x.eq_spec(&y) <==> x == y
}

} // verus!
