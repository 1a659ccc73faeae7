//! A direction in 2D space, a borrowed-reference flavour of [`crate::axis::Axis`].

use vstd::prelude::*;

verus! {

/// A direction in 2D space, either vertical or horizontal.
#[derive(Debug, Clone, Copy, PartialEq, Eq, Structural)]
pub enum Direction {
    Vertical,
    Horizontal,
}

/// Read a coordinate-like value addressed by a [`Direction`].
pub trait ValueForDirection<T> {
    fn value_for_direction(&self, direction: &Direction) -> T;
}

/// Read an extent-like value addressed by a [`Direction`].
pub trait SizeForDirection<T> {
    fn size_for_direction(&self, direction: &Direction) -> T;
}

} // verus!
