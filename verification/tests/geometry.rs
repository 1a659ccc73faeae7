use rect_dividing::area::Area;
use rect_dividing::axis::{Axis, ValueForAxis};
use rect_dividing::axis_aligned_rectangle::AxisAlignedRectangle;
use rect_dividing::point::Point;
use rect_dividing::ratio::Ratio;
use rect_dividing::rectangle::{Rectangle, RectangleSize};
use rect_dividing::rotate::QuarterRotation;
use rect_dividing::vector::Vector;

/// Helper function to assert that two points are equal
fn assert_point_eq(p1: &Point, p2: &Point) {
    assert_eq!(p1.x, p2.x);
    assert_eq!(p1.y, p2.y);
    assert_eq!(p1, p2);
}

/// Assert that two rectangles have the same width and height are equal
fn assert_rect_eq(rect1: &Rectangle, rect2: &Rectangle) {
    assert_eq!(rect1.width, rect2.width);
    assert_eq!(rect1.height, rect2.height);
    assert_eq!(rect1, rect2);
}

/// Rotate a rectangle twice is the same as the original
fn assert_rotate_twice_is_same_as_original(rect: &Rectangle) {
    let rotated_twice = rect.rotate_clockwise().rotate_clockwise();
    assert_rect_eq(rect, &rotated_twice);
    assert_eq!(rotated_twice, *rect);
}

#[test]
fn point_test_new() {
    let result = Point::new(2, 2);
    assert_eq!(result.x, 2);
    assert_eq!(result.y, 2);
}

#[test]
fn point_test_default() {
    let result = Point::default();
    assert_point_eq(&result, &Point::new(0, 0));
}

#[test]
fn test_value_for_axis() {
    let result = Point::new(2, 3);
    assert_eq!(result.value_for_axis(Axis::Vertical), 2);
    assert_eq!(result.value_for_axis(Axis::Horizontal), 3);
}

#[test]
fn test_sub() {
    let a = Point::new(2, 2);
    let b = Point::new(1, 1);
    assert_ne!(a, b);
    let result = a.sub(&b);
    assert_eq!(result, Vector::new(1, 1));
}

#[test]
fn point_test_rotate() {
    let result = Point::new(2, 3).rotate_clockwise();
    assert_point_eq(&result, &Point::new(3, 2));
}

#[test]
fn vector_test_new() {
    let result = Vector::new(2, 2);
    assert_eq!(result.x(), 2);
    assert_eq!(result.y(), 2);
}

#[test]
fn vector_test_default() {
    let result = Vector::default();
    assert_eq!(result.x(), 0);
    assert_eq!(result.y(), 0);
}

#[test]
fn test_add() {
    let a = Vector::new(2, 2);
    let b = Vector::new(1, 1);
    let result = a.add(&b);
    assert_eq!(result.x(), 3);
    assert_eq!(result.y(), 3);
}

#[test]
fn rectangle_test_new() {
    let result = Rectangle::new(2, 3);
    assert_eq!(result.width, 2);
    assert_eq!(result.height, 3);
}

#[test]
fn test_identity() {
    // identity: a rectangle is equal to itself
    let rect = Rectangle::new(2, 3);
    assert_rect_eq(&rect, &rect);
}

#[test]
fn rectangle_test_rotate() {
    assert_rotate_twice_is_same_as_original(&Rectangle::new(2, 3));
}

#[test]
fn rectangle_test_area() {
    let result = Rectangle::new(2, 3).area();
    assert_eq!(result, 6);
}

#[test]
fn test_aspect_ratio() {
    let result = Rectangle::new(16, 9).aspect_ratio();
    assert_eq!(result, Ratio::new(16, 9));
    let other = Rectangle::new(1920, 1080).aspect_ratio();
    // 16:9 and 1920:1080 denote the same rational value
    assert!(result.same_value(&other));
    assert!(other.same_value(&result));
}

#[test]
fn axis_aligned_rectangle_test_new() {
    let point = Point::new(2, 3);
    let rect = Rectangle::new(4, 5);
    let result = AxisAlignedRectangle::new(&point, &rect);
    assert_eq!(result.origin(), point);
    assert_eq!(result.rect(), rect);
    assert_eq!(result.x(), 2);
    assert_eq!(result.y(), 3);
    assert_eq!(result.width(), 4);
    assert_eq!(result.height(), 5);
}

#[test]
fn axis_aligned_rectangle_test_rotate() {
    let result = AxisAlignedRectangle::from4values(2, 3, 4, 5).rotate_clockwise();
    assert_eq!(result.origin(), Point::new(3, 2));
    assert_eq!(result.rect(), Rectangle::new(5, 4));
}

#[test]
fn axis_aligned_rectangle_test_area() {
    let result = AxisAlignedRectangle::from4values(2, 3, 4, 5).area();
    // 4 * 5 = 20
    assert_eq!(result, 20);
}

#[test]
fn test_edges() {
    let result = AxisAlignedRectangle::from4values(2, 3, 4, 5).edges();
    assert_eq!(result.len(), 4);
    assert_eq!(result[0], Point::new(2, 3));
    assert_eq!(result[1], Point::new(6, 3));
    assert_eq!(result[2], Point::new(6, 8));
    assert_eq!(result[3], Point::new(2, 8));
}

#[test]
fn test_include() {
    let a_rect = AxisAlignedRectangle::from4values(2, 3, 4, 5);
    assert!(a_rect.includes(&Point::new(3, 4)));
    assert!(a_rect.includes(&Point::new(5, 7)));
    assert!(!a_rect.includes(&Point::new(1, 3)));
    assert!(!a_rect.includes(&Point::new(7, 3)));
    assert!(!a_rect.includes(&Point::new(6, 2)));
    assert!(!a_rect.includes(&Point::new(6, 9)));
}

#[test]
fn test_overlaps() {
    let point = Point::new(2, 3);
    let rect = Rectangle::new(4, 5);
    let a_rect = AxisAlignedRectangle::new(&point, &rect);
    assert!(a_rect.overlaps(&AxisAlignedRectangle::from4values(1, 2, 4, 5)));
    assert!(a_rect.overlaps(&AxisAlignedRectangle::from4values(1, 4, 4, 5)));
    assert!(a_rect.overlaps(&AxisAlignedRectangle::from4values(1, 5, 4, 5)));
    assert!(a_rect.overlaps(&AxisAlignedRectangle::from4values(1, 6, 4, 5)));

    assert!(!a_rect.overlaps(&AxisAlignedRectangle::from4values(0, 0, 1, 1)));
    assert!(!a_rect.overlaps(&AxisAlignedRectangle::from4values(5, 8, 6, 9)));
}

#[test]
fn test_rotation_order_four() {
    // four clockwise quarter rotations return the original value exactly
    let p = Point::new(2, 3);
    assert_eq!(
        p.rotate_clockwise().rotate_clockwise().rotate_clockwise().rotate_clockwise(),
        p
    );
    let r = Rectangle::new(4, 5);
    assert_eq!(
        r.rotate_clockwise().rotate_clockwise().rotate_clockwise().rotate_clockwise(),
        r
    );
    let a = AxisAlignedRectangle::from4values(2, 3, 4, 5);
    assert_eq!(
        a.rotate_clockwise().rotate_clockwise().rotate_clockwise().rotate_clockwise(),
        a
    );
    // and counter-clockwise rotation is three clockwise ones
    assert_eq!(
        a.rotate_counter_clockwise(),
        a.rotate_clockwise().rotate_clockwise().rotate_clockwise()
    );
}

#[test]
fn test_from_two_point() {
    let a = AxisAlignedRectangle::from_two_point(&Point::new(2, 3), &Point::new(6, 8));
    assert_eq!(a.origin(), Point::new(2, 3));
    assert_eq!(a.rect(), Rectangle::new(4, 5));
    // the extent is the absolute difference whichever way round
    let b = AxisAlignedRectangle::from_two_point(&Point::new(6, 8), &Point::new(2, 3));
    assert_eq!(b.origin(), Point::new(6, 8));
    assert_eq!(b.rect(), Rectangle::new(4, 5));
}

#[test]
fn test_axis_opposite() {
    assert_eq!(Axis::Vertical.opposite(), Axis::Horizontal);
    assert_eq!(Axis::Horizontal.opposite(), Axis::Vertical);
}
