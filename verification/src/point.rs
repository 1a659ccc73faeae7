//! A point in 2D space.

use vstd::prelude::*;

use crate::axis::{Axis, ValueForAxis};
use crate::direction::{Direction, ValueForDirection};
use crate::rotate::QuarterRotation;
use crate::vector::Vector;

verus! {

/// A point in 2D space
#[derive(Debug, PartialEq, Eq, Structural, Clone, Copy)]
pub struct Point {
    pub x: i64,
    pub y: i64,
}

/// One of the four corners of an axis-aligned rectangle, used to pick the
/// bias (floor or ceil per coordinate) when snapping a corner to a grid.
#[derive(Debug, PartialEq, Eq, Structural, Clone, Copy)]
pub enum Edge {
    LeftTop,
    RightTop,
    LeftBottom,
    RightBottom,
}

/// A point in 2D space constructor
impl Point {
    pub fn new(x: i64, y: i64) -> (r: Self)
        ensures
            r.x == x,
            r.y == y,
    {
        Point { x, y }
    }

    /// Get the x coordinate of the point
    pub fn x(&self) -> (r: i64)
        ensures
            r == self.x,
    {
        self.x
    }

    /// Get the y coordinate of the point
    pub fn y(&self) -> (r: i64)
        ensures
            r == self.y,
    {
        self.y
    }

    /// Vector from point `rhs` to this point
    pub fn sub(&self, rhs: &Point) -> (r: Vector)
        requires
            i64::MIN <= self.x - rhs.x <= i64::MAX,
            i64::MIN <= self.y - rhs.y <= i64::MAX,
        ensures
            r.x == self.x - rhs.x,
            r.y == self.y - rhs.y,
    {
        Vector::new(self.x - rhs.x, self.y - rhs.y)
    }
}

impl ValueForAxis<i64> for Point {
    /// The x coordinate for the vertical axis, the y coordinate for the
    /// horizontal axis.
    fn value_for_axis(&self, axis: Axis) -> (r: i64)
        ensures
            r == (match axis {
                Axis::Vertical => self.x,
                Axis::Horizontal => self.y,
            }),
    {
        match axis {
            Axis::Vertical => self.x,
            Axis::Horizontal => self.y,
        }
    }
}

impl ValueForDirection<i64> for Point {
    fn value_for_direction(&self, direction: &Direction) -> (r: i64)
        ensures
            r == (match direction {
                Direction::Vertical => self.x,
                Direction::Horizontal => self.y,
            }),
    {
        match direction {
            Direction::Vertical => self.x,
            Direction::Horizontal => self.y,
        }
    }
}

/// A point in 2D space with default values. in many cases, this is (0, 0)
impl Default for Point {
    fn default() -> (r: Self)
        ensures
            r.x == 0,
            r.y == 0,
    {
        Point::new(0, 0)
    }
}

/// The clockwise quarter rotation of a point swaps its coordinates.
pub open spec fn spec_rotate_point(p: Point) -> Point {
    Point { x: p.y, y: p.x }
}

/// Rotate a point by 90 degrees
impl QuarterRotation for Point {
    fn rotate_clockwise(&self) -> (r: Self)
        ensures
            r == spec_rotate_point(*self),
    {
        Point { x: self.y, y: self.x }
    }

    fn rotate_counter_clockwise(&self) -> (r: Self)
        ensures
            spec_rotate_point(r) == *self,
    {
        self.rotate_clockwise().rotate_clockwise().rotate_clockwise()
    }
}

/// Four clockwise quarter rotations return the original point exactly.
pub proof fn lemma_point_rotation_order_four(p: Point)
    ensures
        spec_rotate_point(spec_rotate_point(spec_rotate_point(spec_rotate_point(p)))) == p,
{
}

} // verus!
