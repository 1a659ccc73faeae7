//! A displacement in 2D space.

use vstd::prelude::*;

use crate::axis::{Axis, ValueForAxis};
use crate::direction::{Direction, ValueForDirection};

verus! {

/// A simple 2D vector
#[derive(Debug, PartialEq, Eq, Structural, Clone, Copy)]
pub struct Vector {
    pub x: i64,
    pub y: i64,
}

/// A simple 2D vector constructor
impl Vector {
    pub fn new(x: i64, y: i64) -> (r: Self)
        ensures
            r.x == x,
            r.y == y,
    {
        Vector { x, y }
    }

    /// Get the x component of the vector
    pub fn x(&self) -> (r: i64)
        ensures
            r == self.x,
    {
        self.x
    }

    /// Get the y component of the vector
    pub fn y(&self) -> (r: i64)
        ensures
            r == self.y,
    {
        self.y
    }

    /// Add vector `rhs` to this vector
    pub fn add(&self, rhs: &Vector) -> (r: Vector)
        requires
            i64::MIN <= self.x + rhs.x <= i64::MAX,
            i64::MIN <= self.y + rhs.y <= i64::MAX,
        ensures
            r.x == self.x + rhs.x,
            r.y == self.y + rhs.y,
    {
        Vector::new(self.x + rhs.x, self.y + rhs.y)
    }

    /// Subtract vector `rhs` from this vector
    pub fn sub(&self, rhs: &Vector) -> (r: Vector)
        requires
            i64::MIN <= self.x - rhs.x <= i64::MAX,
            i64::MIN <= self.y - rhs.y <= i64::MAX,
        ensures
            r.x == self.x - rhs.x,
            r.y == self.y - rhs.y,
    {
        Vector::new(self.x - rhs.x, self.y - rhs.y)
    }
}

impl ValueForAxis<i64> for Vector {
    /// The x component for the vertical axis, the y component for the
    /// horizontal axis.
    fn value_for_axis(&self, axis: Axis) -> (r: i64)
        ensures
            r == (match axis {
                Axis::Vertical => self.x,
                Axis::Horizontal => self.y,
            }),
    {
        match axis {
            Axis::Vertical => self.x,
            Axis::Horizontal => self.y,
        }
    }
}

impl ValueForDirection<i64> for Vector {
    fn value_for_direction(&self, direction: &Direction) -> (r: i64)
        ensures
            r == (match direction {
                Direction::Vertical => self.x,
                Direction::Horizontal => self.y,
            }),
    {
        match direction {
            Direction::Vertical => self.x,
            Direction::Horizontal => self.y,
        }
    }
}

/// A simple 2D vector with default values. in many cases, this is (0, 0)
impl Default for Vector {
    fn default() -> (r: Self)
        ensures
            r.x == 0,
            r.y == 0,
    {
        Vector::new(0, 0)
    }
}

} // verus!
