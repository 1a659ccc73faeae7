use rect_dividing::axis::Axis;
use rect_dividing::axis_aligned_rectangle::AxisAlignedRectangle;
use rect_dividing::point::Point;
use rect_dividing::ratio::Ratio;
use rect_dividing::rectangle::{Rectangle, RectangleSize};
use rect_dividing::weight::normalize_weights;

/// Helper function to assert that two rectangles are equal
fn assert_rect_eq(rect1: &Rectangle, rect2: &Rectangle) {
    assert_eq!(rect1.width, rect2.width);
    assert_eq!(rect1.height, rect2.height);
    assert_eq!(rect1, rect2);
}

#[test]
fn rectangle_test_divide_vertical() {
    let (rect_a, rect_b) = Rectangle::new(4, 2).divide_vertical(1);
    assert_rect_eq(&rect_a, &Rectangle::new(1, 2));
    assert_rect_eq(&rect_b, &Rectangle::new(3, 2));
}

#[test]
fn rectangle_test_divide_horizontal() {
    let (rect_a, rect_b) = Rectangle::new(2, 4).divide_horizontal(1);
    assert_rect_eq(&rect_a, &Rectangle::new(2, 1));
    assert_rect_eq(&rect_b, &Rectangle::new(2, 3));
}

#[test]
fn test_divide() {
    let (rect_a, rect_b) = Rectangle::new(4, 2).divide(1, Axis::Vertical);
    assert_rect_eq(&rect_a, &Rectangle::new(1, 2));
    assert_rect_eq(&rect_b, &Rectangle::new(3, 2));

    let (rect_a, rect_b) = Rectangle::new(2, 4).divide(1, Axis::Horizontal);
    assert_rect_eq(&rect_a, &Rectangle::new(2, 1));
    assert_rect_eq(&rect_b, &Rectangle::new(2, 3));
}

#[test]
fn rectangle_test_divide_nth() {
    let rect = Rectangle::new(6, 2);
    let divided = rect.divide_by_values_and_axis(&vec![1, 2], Axis::Vertical);
    assert_rect_eq(&divided[0], &Rectangle::new(1, 2));
    assert_rect_eq(&divided[1], &Rectangle::new(2, 2));
    assert_rect_eq(&divided[2], &Rectangle::new(3, 2));

    let rect = Rectangle::new(2, 6);
    let divided = rect.divide_by_values_and_axis(&vec![3, 2], Axis::Horizontal);
    assert_rect_eq(&divided[0], &Rectangle::new(2, 3));
    assert_rect_eq(&divided[1], &Rectangle::new(2, 2));
    assert_rect_eq(&divided[2], &Rectangle::new(2, 1));
}

#[test]
fn test_divide_by_weights() {
    let rect = Rectangle::new(6, 2);
    // values
    let divided1 = rect.divide_by_values_and_axis(&vec![1, 2], Axis::Vertical);

    let rect = Rectangle::new(6, 2);
    let divided2 = rect.divide_by_weights_and_axis(&vec![2, 4, 6], Axis::Vertical);
    assert_eq!(divided1, divided2);
}

#[test]
fn test_divide_by_weights_count() {
    // one piece per weight, and none for an empty list
    let rect = Rectangle::new(100, 100);
    assert_eq!(rect.divide_by_weights_and_axis(&vec![], Axis::Vertical).len(), 0);
    assert_eq!(rect.divide_by_weights_and_axis(&vec![7], Axis::Vertical).len(), 1);
    assert_eq!(
        rect.divide_by_weights_and_axis(&vec![7], Axis::Vertical)[0],
        Rectangle::new(100, 100)
    );
    assert_eq!(
        rect.divide_by_weights_and_axis(&vec![3, 1, 4, 1, 5], Axis::Horizontal).len(),
        5
    );
}

#[test]
fn dividing_test_divide_vertical() {
    let point = Point::new(2, 3);
    let rect = Rectangle::new(4, 5);
    let (rect_a, rect_b) = AxisAlignedRectangle::new(&point, &rect).divide_vertical(2);
    assert_eq!(rect_a.origin(), point);
    assert_eq!(rect_a.rect(), Rectangle::new(2, 5));
    assert_eq!(rect_b.origin(), Point::new(4, 3));
    assert_eq!(rect_b.rect(), Rectangle::new(2, 5));

    let point = Point::new(2, 3);
    let rect = Rectangle::new(4, 5);
    let (rect_a, rect_b) = AxisAlignedRectangle::new(&point, &rect).divide_vertical(1);
    assert_eq!(rect_a.origin(), point);
    assert_eq!(rect_a.rect(), Rectangle::new(1, 5));
    assert_eq!(rect_b.origin(), Point::new(3, 3));
    assert_eq!(rect_b.rect(), Rectangle::new(3, 5));
}

#[test]
fn dividing_test_divide_horizontal() {
    let point = Point::new(2, 3);
    let rect = Rectangle::new(4, 5);
    let (rect_a, rect_b) = AxisAlignedRectangle::new(&point, &rect).divide_horizontal(1);
    assert_eq!(rect_a.origin(), point);
    assert_eq!(rect_a.rect(), Rectangle::new(4, 1));
    assert_eq!(rect_b.origin(), Point::new(2, 4));
    assert_eq!(rect_b.rect(), Rectangle::new(4, 4));

    let point = Point::new(2, 3);
    let rect = Rectangle::new(4, 5);
    let (rect_a, rect_b) = AxisAlignedRectangle::new(&point, &rect).divide_horizontal(2);
    assert_eq!(rect_a.origin(), point);
    assert_eq!(rect_a.rect(), Rectangle::new(4, 2));
    assert_eq!(rect_b.origin(), Point::new(2, 5));
    assert_eq!(rect_b.rect(), Rectangle::new(4, 3));
}

#[test]
fn dividing_test_divide_nth() {
    // test vertical
    let point = Point::new(2, 3);
    let rect = Rectangle::new(6, 2);
    let a_rect = AxisAlignedRectangle::new(&point, &rect);
    let divided = a_rect.divide_by_values_and_axis(&vec![1, 2], Axis::Vertical);
    assert_eq!(divided[0].origin(), point);
    assert_eq!(divided[0].rect(), Rectangle::new(1, 2));
    assert_eq!(divided[1].origin(), Point::new(3, 3));
    assert_eq!(divided[1].rect(), Rectangle::new(2, 2));
    assert_eq!(divided[2].origin(), Point::new(5, 3));
    assert_eq!(divided[2].rect(), Rectangle::new(3, 2));
    assert_eq!(divided.len(), 3);
    // sum of divided rectangles should equal original rectangle
    assert_eq!(
        divided[0].width() + divided[1].width() + divided[2].width(),
        a_rect.width()
    );
    // all divided rectangles should have the same height
    assert_eq!(divided[0].height(), a_rect.height());
    assert_eq!(divided[1].height(), a_rect.height());
    assert_eq!(divided[2].height(), a_rect.height());
    // the sum of the x and width of the divided rectangle should equal the x of the next divided rectangle
    assert_eq!(divided[0].x() + divided[0].width(), divided[1].x());
    assert_eq!(divided[1].x() + divided[1].width(), divided[2].x());
    assert_eq!(
        a_rect.x() + a_rect.width(),
        divided[2].x() + divided[2].width()
    );

    // test horizontal
    let point = Point::new(2, 3);
    let rect = Rectangle::new(2, 6);
    let a_rect = AxisAlignedRectangle::new(&point, &rect);
    let divided = a_rect.divide_by_values_and_axis(&vec![3, 2], Axis::Horizontal);
    assert_eq!(divided[0].origin(), point);
    assert_eq!(divided[0].rect(), Rectangle::new(2, 3));
    assert_eq!(divided[1].origin(), Point::new(2, 6));
    assert_eq!(divided[1].rect(), Rectangle::new(2, 2));
    assert_eq!(divided[2].origin(), Point::new(2, 8));
    assert_eq!(divided[2].rect(), Rectangle::new(2, 1));
    assert_eq!(divided.len(), 3);
    // sum of divided rectangles should equal original rectangle
    assert_eq!(
        divided[0].height() + divided[1].height() + divided[2].height(),
        a_rect.height()
    );
    // all divided rectangles should have the same width
    assert_eq!(divided[0].width(), a_rect.width());
    assert_eq!(divided[1].width(), a_rect.width());
    assert_eq!(divided[2].width(), a_rect.width());
    // the sum of the y and height of the divided rectangle should equal the y of the next divided rectangle
    assert_eq!(divided[0].y() + divided[0].height(), divided[1].y());
    assert_eq!(divided[1].y() + divided[1].height(), divided[2].y());
    assert_eq!(
        a_rect.y() + a_rect.height(),
        divided[2].y() + divided[2].height()
    );
}

#[test]
fn test_normalize_weights() {
    let weights = vec![1, 1, 1, 1];
    let normalized = normalize_weights(&weights);
    assert_eq!(normalized, vec![
        Ratio::new(1, 4),
        Ratio::new(1, 4),
        Ratio::new(1, 4),
        Ratio::new(1, 4),
    ]);

    let weights = vec![1, 2, 3, 4];
    let normalized = normalize_weights(&weights);
    assert_eq!(normalized, vec![
        Ratio::new(1, 10),
        Ratio::new(2, 10),
        Ratio::new(3, 10),
        Ratio::new(4, 10),
    ]);
    // the distribution sums to one: the numerators sum to the denominator
    let num_sum: i64 = normalized.iter().map(|r| r.num).sum();
    assert_eq!(num_sum, 10);
}

#[test]
fn test_divide_at_boundaries() {
    // an offset of zero and an offset of the full extent are both valid
    let rect = Rectangle::new(4, 2);
    let (a, b) = rect.divide_vertical(0);
    assert_rect_eq(&a, &Rectangle::new(0, 2));
    assert_rect_eq(&b, &Rectangle::new(4, 2));
    let (a, b) = rect.divide_vertical(4);
    assert_rect_eq(&a, &Rectangle::new(4, 2));
    assert_rect_eq(&b, &Rectangle::new(0, 2));
}
