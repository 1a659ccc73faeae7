//! The two orthogonal directions along which a rectangle is measured or split.

use vstd::prelude::*;

verus! {

/// An axis in 2D space, either vertical or horizontal. (X or Y)
///
/// A `Vertical` cut line runs parallel to the y axis, so splitting along
/// `Vertical` consumes width; `Horizontal` consumes height.
#[derive(Debug, Clone, Copy, PartialEq, Eq, Structural)]
pub enum Axis {
    Vertical,
    Horizontal,
}

impl Axis {
    /// Get the opposite axis of the current axis (Vertical <-> Horizontal)
    pub fn opposite(&self) -> (r: Self)
        ensures
            r == (match self {
                Axis::Vertical => Axis::Horizontal,
                Axis::Horizontal => Axis::Vertical,
            }),
    {
        match self {
            Axis::Vertical => Axis::Horizontal,
            Axis::Horizontal => Axis::Vertical,
        }
    }
}

/// Read a coordinate-like value addressed by an [`Axis`].
pub trait ValueForAxis<T> {
    fn value_for_axis(&self, axis: Axis) -> T;
}

/// Read an extent-like value addressed by an [`Axis`].
pub trait SizeForAxis<T> {
    fn size_for_axis(&self, axis: Axis) -> T;
}

} // verus!
