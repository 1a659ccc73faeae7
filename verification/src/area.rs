//! Area of a shape.

use vstd::prelude::*;

verus! {

/// The area of a shape.
///
/// `area_req` is the implementor's precondition (the product of the extents
/// must fit the numeric type); each implementation states in its own
/// `ensures` what the returned area is.
pub trait Area<T> {
    spec fn area_req(&self) -> bool;

    /// Calculate the area of the shape
    fn area(&self) -> T
        requires
            self.area_req(),
    ;
}

} // verus!
