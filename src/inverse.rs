use vstd::prelude::*;

verus! {

/// Types whose values may have a multiplicative inverse.
pub trait Inverse: Sized {
    /// The inverse of `self`, or `None` where there is none.
    spec fn spec_inverse(self) -> Option<Self>;

    /// What the inverse needs to be computed (that it fits the type, say).
    spec fn inverse_req(self) -> bool;

    /// Returns `Some` of the inverse of a unit and `None` otherwise.
    fn inverse(self) -> (r: Option<Self>)
        requires
            self.inverse_req(),
        ensures
            r == self.spec_inverse(),
    ;
}

} // verus!
