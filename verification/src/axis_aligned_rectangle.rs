//! A positioned, axis-aligned rectangle: origin point plus extent.

use vstd::prelude::*;

use crate::area::Area;
use crate::axis::{Axis, SizeForAxis};
use crate::point::Point;
use crate::ratio::Ratio;
use crate::rectangle::{Rectangle, RectangleSize};
use crate::rotate::QuarterRotation;

verus! {

/// Largest magnitude a well-formed coordinate may have.
///
/// Both corners of a well-formed rectangle stay within `[-MAX_COORD,
/// MAX_COORD]` in both directions, a bound that splitting preserves; it keeps
/// every product the dividing engine forms inside `i128`.
pub const MAX_COORD: i64 = 1_000_000;

/// axis aligned starting at x, y and ending at x + width, y + height (left to right, top to bottom)
#[derive(Debug, PartialEq, Eq, Structural, Clone, Copy)]
pub struct AxisAlignedRectangle {
    pub point: Point,
    pub rectangle: Rectangle,
}

/// Left edge coordinate.
pub open spec fn spec_min_x(r: AxisAlignedRectangle) -> int {
    r.point.x as int
}

/// Right edge coordinate.
pub open spec fn spec_max_x(r: AxisAlignedRectangle) -> int {
    r.point.x + r.rectangle.width
}

/// Top edge coordinate.
pub open spec fn spec_min_y(r: AxisAlignedRectangle) -> int {
    r.point.y as int
}

/// Bottom edge coordinate.
pub open spec fn spec_max_y(r: AxisAlignedRectangle) -> int {
    r.point.y + r.rectangle.height
}

/// The point `(px, py)` lies strictly inside `r`.
pub open spec fn spec_includes(r: AxisAlignedRectangle, px: int, py: int) -> bool {
    &&& spec_min_x(r) < px < spec_max_x(r)
    &&& spec_min_y(r) < py < spec_max_y(r)
}

/// The point `(px, py)` lies inside `r` or on its boundary.
pub open spec fn spec_includes_or_on_boundary(r: AxisAlignedRectangle, px: int, py: int) -> bool {
    &&& spec_min_x(r) <= px <= spec_max_x(r)
    &&& spec_min_y(r) <= py <= spec_max_y(r)
}

/// Some corner of `other` lies strictly inside `r`.
pub open spec fn spec_overlaps(r: AxisAlignedRectangle, other: AxisAlignedRectangle) -> bool {
    ||| spec_includes(r, spec_min_x(other), spec_min_y(other))
    ||| spec_includes(r, spec_max_x(other), spec_min_y(other))
    ||| spec_includes(r, spec_max_x(other), spec_max_y(other))
    ||| spec_includes(r, spec_min_x(other), spec_max_y(other))
}

/// Every corner of `other` lies inside `r` or on its boundary.
pub open spec fn spec_encloses(r: AxisAlignedRectangle, other: AxisAlignedRectangle) -> bool {
    &&& spec_min_x(r) <= spec_min_x(other)
    &&& spec_max_x(other) <= spec_max_x(r)
    &&& spec_min_y(r) <= spec_min_y(other)
    &&& spec_max_y(other) <= spec_max_y(r)
}

/// The interiors of `a` and `b` do not meet: they are separated along one
/// of the axes. A rectangle of zero extent has an empty interior and is
/// disjoint from everything.
pub open spec fn interiors_disjoint(a: AxisAlignedRectangle, b: AxisAlignedRectangle) -> bool {
    ||| spec_max_x(a) <= spec_min_x(b)
    ||| spec_max_x(b) <= spec_min_x(a)
    ||| spec_max_y(a) <= spec_min_y(b)
    ||| spec_max_y(b) <= spec_min_y(a)
}

/// The clockwise quarter rotation swaps the origin's coordinates and the
/// extent's width and height consistently.
pub open spec fn spec_rotate_aar(r: AxisAlignedRectangle) -> AxisAlignedRectangle {
    AxisAlignedRectangle {
        point: Point { x: r.point.y, y: r.point.x },
        rectangle: Rectangle { width: r.rectangle.height, height: r.rectangle.width },
    }
}

impl AxisAlignedRectangle {
    /// Non-negative extents with both corners within `MAX_COORD`, so that the
    /// dividing engine's arithmetic stays in range. Splitting a well-formed
    /// rectangle only yields well-formed pieces.
    pub open spec fn wf(&self) -> bool {
        &&& -MAX_COORD <= self.point.x
        &&& self.point.x + self.rectangle.width <= MAX_COORD
        &&& -MAX_COORD <= self.point.y
        &&& self.point.y + self.rectangle.height <= MAX_COORD
        &&& 0 <= self.rectangle.width
        &&& 0 <= self.rectangle.height
    }

    /// Create a new axis aligned rectangle
    pub fn new(point: &Point, rectangle: &Rectangle) -> (r: Self)
        ensures
            r.point == *point,
            r.rectangle == *rectangle,
    {
        AxisAlignedRectangle { point: *point, rectangle: *rectangle }
    }

    /// Create a new axis aligned rectangle from 4 values
    pub fn from4values(x: i64, y: i64, width: i64, height: i64) -> (r: Self)
        ensures
            r.point.x == x,
            r.point.y == y,
            r.rectangle.width == width,
            r.rectangle.height == height,
    {
        AxisAlignedRectangle {
            point: Point::new(x, y),
            rectangle: Rectangle::new(width, height),
        }
    }

    /// Create an axis aligned rectangle from two points: the origin is `p1`
    /// and the extent is the absolute difference of the coordinates.
    pub fn from_two_point(p1: &Point, p2: &Point) -> (r: Self)
        requires
            i64::MIN < p1.x - p2.x <= i64::MAX,
            i64::MIN < p1.y - p2.y <= i64::MAX,
        ensures
            r.point == *p1,
            r.rectangle.width == (if p1.x - p2.x >= 0 { p1.x - p2.x } else { p2.x - p1.x }),
            r.rectangle.height == (if p1.y - p2.y >= 0 { p1.y - p2.y } else { p2.y - p1.y }),
    {
        let vec = p1.sub(p2);
        let width = if vec.x() >= 0 { vec.x() } else { -vec.x() };
        let height = if vec.y() >= 0 { vec.y() } else { -vec.y() };
        let rect = Rectangle::new(width, height);
        AxisAlignedRectangle::new(p1, &rect)
    }

    /// Get the rectangle
    pub fn rect(&self) -> (r: Rectangle)
        ensures
            r == self.rectangle,
    {
        self.rectangle
    }

    /// Get the origin point of the rectangle
    pub fn origin(&self) -> (r: Point)
        ensures
            r == self.point,
    {
        self.point
    }

    /// Get the x coordinate of the rectangle
    pub fn x(&self) -> (r: i64)
        ensures
            r == self.point.x,
    {
        self.point.x()
    }

    /// Get the y coordinate of the rectangle
    pub fn y(&self) -> (r: i64)
        ensures
            r == self.point.y,
    {
        self.point.y()
    }

    /// The aspect ratio (width / height) of the rectangle, as an exact
    /// rational. Undefined for a flat rectangle, hence the precondition.
    pub fn aspect_ratio(&self) -> (r: Ratio)
        requires
            self.rectangle.height > 0,
        ensures
            r.num == self.rectangle.width,
            r.den == self.rectangle.height,
    {
        self.rectangle.aspect_ratio()
    }

    /// Both corners of the rectangle can be computed without overflow.
    pub open spec fn extent_fits(&self) -> bool {
        &&& i64::MIN <= self.point.x + self.rectangle.width <= i64::MAX
        &&& i64::MIN <= self.point.y + self.rectangle.height <= i64::MAX
    }

    /// Get the x coordinate of the rectangle
    fn min_x(&self) -> (r: i64)
        ensures
            r == spec_min_x(*self),
    {
        self.point.x()
    }

    /// Get the x coordinate of the rectangle plus its width
    fn max_x(&self) -> (r: i64)
        requires
            self.extent_fits(),
        ensures
            r == spec_max_x(*self),
    {
        self.point.x() + self.rectangle.width()
    }

    /// Get the y coordinate of the rectangle
    fn min_y(&self) -> (r: i64)
        ensures
            r == spec_min_y(*self),
    {
        self.point.y()
    }

    /// Get the y coordinate of the rectangle plus its height
    fn max_y(&self) -> (r: i64)
        requires
            self.extent_fits(),
        ensures
            r == spec_max_y(*self),
    {
        self.point.y() + self.rectangle.height()
    }

    /// The left-top corner.
    pub fn edge_left_top(&self) -> (r: Point)
        ensures
            r.x == spec_min_x(*self),
            r.y == spec_min_y(*self),
    {
        Point::new(self.min_x(), self.min_y())
    }

    /// The right-top corner.
    pub fn edge_right_top(&self) -> (r: Point)
        requires
            self.extent_fits(),
        ensures
            r.x == spec_max_x(*self),
            r.y == spec_min_y(*self),
    {
        Point::new(self.max_x(), self.min_y())
    }

    /// The left-bottom corner.
    pub fn edge_left_bottom(&self) -> (r: Point)
        requires
            self.extent_fits(),
        ensures
            r.x == spec_min_x(*self),
            r.y == spec_max_y(*self),
    {
        Point::new(self.min_x(), self.max_y())
    }

    /// The right-bottom corner.
    pub fn edge_right_bottom(&self) -> (r: Point)
        requires
            self.extent_fits(),
        ensures
            r.x == spec_max_x(*self),
            r.y == spec_max_y(*self),
    {
        Point::new(self.max_x(), self.max_y())
    }

    /// The four corners, clockwise from the left-top corner.
    pub fn edges(&self) -> (r: Vec<Point>)
        requires
            self.extent_fits(),
        ensures
            r@.len() == 4,
            r@[0].x == spec_min_x(*self) && r@[0].y == spec_min_y(*self),
            r@[1].x == spec_max_x(*self) && r@[1].y == spec_min_y(*self),
            r@[2].x == spec_max_x(*self) && r@[2].y == spec_max_y(*self),
            r@[3].x == spec_min_x(*self) && r@[3].y == spec_max_y(*self),
    {
        let mut r: Vec<Point> = Vec::new();
        r.push(self.edge_left_top());
        r.push(self.edge_right_top());
        r.push(self.edge_right_bottom());
        r.push(self.edge_left_bottom());
        r
    }

    /// Check if the point is strictly inside the rectangle
    /// Returns true if the point is inside the rectangle, false otherwise
    pub fn includes(&self, p: &Point) -> (r: bool)
        requires
            self.extent_fits(),
        ensures
            r == spec_includes(*self, p.x as int, p.y as int),
    {
        // x
        if p.x() <= self.min_x() || p.x() >= self.max_x() {
            return false;
        }
        // y
        if p.y() <= self.min_y() || p.y() >= self.max_y() {
            return false;
        }
        true
    }

    /// Check if the point is inside the rectangle or on its boundary
    pub fn includes_or_on_the_boundary(&self, p: &Point) -> (r: bool)
        requires
            self.extent_fits(),
        ensures
            r == spec_includes_or_on_boundary(*self, p.x as int, p.y as int),
    {
        // x
        if p.x() < self.min_x() || p.x() > self.max_x() {
            return false;
        }
        // y
        if p.y() < self.min_y() || p.y() > self.max_y() {
            return false;
        }
        true
    }

    /// Check if any corner of `other` lies strictly inside this rectangle.
    pub fn overlaps(&self, other: &Self) -> (r: bool)
        requires
            self.extent_fits(),
            other.extent_fits(),
        ensures
            r == spec_overlaps(*self, *other),
    {
        let a = self.includes(&other.edge_left_top());
        let b = self.includes(&other.edge_right_top());
        let c = self.includes(&other.edge_right_bottom());
        let d = self.includes(&other.edge_left_bottom());
        a || b || c || d
    }

    /// Check if every corner of `other` lies inside this rectangle or on its
    /// boundary.
    pub fn encloses(&self, other: &Self) -> (r: bool)
        requires
            self.extent_fits(),
            other.extent_fits(),
            other.rectangle.width >= 0,
            other.rectangle.height >= 0,
        ensures
            r == spec_encloses(*self, *other),
    {
        let a = self.includes_or_on_the_boundary(&other.edge_left_top());
        let b = self.includes_or_on_the_boundary(&other.edge_right_top());
        let c = self.includes_or_on_the_boundary(&other.edge_right_bottom());
        let d = self.includes_or_on_the_boundary(&other.edge_left_bottom());
        a && b && c && d
    }
}

impl RectangleSize<i64> for AxisAlignedRectangle {
    /// Get the width of the rectangle
    fn width(&self) -> (r: i64)
        ensures
            r == self.rectangle.width,
    {
        self.rectangle.width()
    }

    /// Get the height of the rectangle
    fn height(&self) -> (r: i64)
        ensures
            r == self.rectangle.height,
    {
        self.rectangle.height()
    }
}

impl SizeForAxis<i64> for AxisAlignedRectangle {
    /// Get the size of the rectangle along the specified axis
    fn size_for_axis(&self, axis: Axis) -> (r: i64)
        ensures
            r == (match axis {
                Axis::Vertical => self.rectangle.width,
                Axis::Horizontal => self.rectangle.height,
            }),
    {
        self.rectangle.size_for_axis(axis)
    }
}

/// area of an axis aligned rectangle
impl Area<i64> for AxisAlignedRectangle {
    /// The product of the extents must fit `i64`.
    open spec fn area_req(&self) -> bool {
        i64::MIN <= self.rectangle.width * self.rectangle.height <= i64::MAX
    }

    fn area(&self) -> (r: i64)
        ensures
            r == self.rectangle.width * self.rectangle.height,
    {
        self.rectangle.area()
    }
}

/// Rotate an axis aligned rectangle by 90 degrees
impl QuarterRotation for AxisAlignedRectangle {
    fn rotate_clockwise(&self) -> (r: Self)
        ensures
            r == spec_rotate_aar(*self),
    {
        AxisAlignedRectangle::from4values(
            self.y(),
            self.x(),
            self.height(),
            self.width(),
        )
    }

    fn rotate_counter_clockwise(&self) -> (r: Self)
        ensures
            spec_rotate_aar(r) == *self,
    {
        self.rotate_clockwise().rotate_clockwise().rotate_clockwise()
    }
}

/// Four clockwise quarter rotations return the original rectangle exactly.
pub proof fn lemma_aar_rotation_order_four(r: AxisAlignedRectangle)
    ensures
        spec_rotate_aar(spec_rotate_aar(spec_rotate_aar(spec_rotate_aar(r)))) == r,
{
}

} // verus!
