//! A rectangle extent (width and height), without a position.

use vstd::prelude::*;

use crate::area::Area;
use crate::axis::{Axis, SizeForAxis};
use crate::direction::{Direction, SizeForDirection};
use crate::ratio::Ratio;
use crate::rotate::QuarterRotation;

verus! {

/// rectangle in 2D space with a width and height
#[derive(Debug, PartialEq, Eq, Structural, Clone, Copy)]
pub struct Rectangle {
    pub width: i64,
    pub height: i64,
}

/// Width and height of a rectangle-like shape.
pub trait RectangleSize<T> {
    fn width(&self) -> T;
    fn height(&self) -> T;
}

impl Rectangle {
    /// Non-negative extents, small enough for the engine's arithmetic.
    pub open spec fn wf(&self) -> bool {
        &&& 0 <= self.width <= crate::axis_aligned_rectangle::MAX_COORD
        &&& 0 <= self.height <= crate::axis_aligned_rectangle::MAX_COORD
    }

    /// A rectangle in 2D space constructor
    pub fn new(width: i64, height: i64) -> (r: Self)
        ensures
            r.width == width,
            r.height == height,
    {
        Rectangle { width, height }
    }

    /// The aspect ratio (width / height) of the rectangle, as an exact
    /// rational. Undefined for a flat rectangle, hence the precondition.
    pub fn aspect_ratio(&self) -> (r: Ratio)
        requires
            self.height > 0,
        ensures
            r.num == self.width,
            r.den == self.height,
    {
        Ratio::new(self.width, self.height)
    }
}

/// A rectangle in 2D space with a width and height
impl RectangleSize<i64> for Rectangle {
    fn width(&self) -> (r: i64)
        ensures
            r == self.width,
    {
        self.width
    }

    fn height(&self) -> (r: i64)
        ensures
            r == self.height,
    {
        self.height
    }
}

impl SizeForAxis<i64> for Rectangle {
    /// The width for the vertical axis, the height for the horizontal axis.
    fn size_for_axis(&self, axis: Axis) -> (r: i64)
        ensures
            r == (match axis {
                Axis::Vertical => self.width,
                Axis::Horizontal => self.height,
            }),
    {
        match axis {
            Axis::Vertical => self.width,
            Axis::Horizontal => self.height,
        }
    }
}

impl SizeForDirection<i64> for Rectangle {
    fn size_for_direction(&self, direction: &Direction) -> (r: i64)
        ensures
            r == (match direction {
                Direction::Vertical => self.width,
                Direction::Horizontal => self.height,
            }),
    {
        match direction {
            Direction::Vertical => self.width,
            Direction::Horizontal => self.height,
        }
    }
}

impl Area<i64> for Rectangle {
    /// The product of the extents must fit `i64`.
    open spec fn area_req(&self) -> bool {
        i64::MIN <= self.width * self.height <= i64::MAX
    }

    fn area(&self) -> (r: i64)
        ensures
            r == self.width * self.height,
    {
        self.width * self.height
    }
}

/// The clockwise quarter rotation of an extent swaps width and height.
pub open spec fn spec_rotate_rect(r: Rectangle) -> Rectangle {
    Rectangle { width: r.height, height: r.width }
}

/// Rotate a rectangle by 90 degrees
impl QuarterRotation for Rectangle {
    fn rotate_clockwise(&self) -> (r: Self)
        ensures
            r == spec_rotate_rect(*self),
    {
        Rectangle { width: self.height, height: self.width }
    }

    fn rotate_counter_clockwise(&self) -> (r: Self)
        ensures
            spec_rotate_rect(r) == *self,
    {
        self.rotate_clockwise().rotate_clockwise().rotate_clockwise()
    }
}

/// Four clockwise quarter rotations return the original extent exactly.
pub proof fn lemma_rect_rotation_order_four(r: Rectangle)
    ensures
        spec_rotate_rect(spec_rotate_rect(spec_rotate_rect(spec_rotate_rect(r)))) == r,
{
}

} // verus!
