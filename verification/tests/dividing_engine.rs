use rect_dividing::area::Area;
use rect_dividing::axis::Axis;
use rect_dividing::axis_aligned_rectangle::AxisAlignedRectangle;
use rect_dividing::point::Point;
use rect_dividing::ratio::Ratio;
use rect_dividing::rectangle::{Rectangle, RectangleSize};

/// The number of pieces equals the number of weights, the piece areas sum
/// exactly to the source area, and each piece's share of the area matches
/// its weight's share of the total within a small tolerance.
fn assert_weights_dividing(original_area: i64, divided_areas: &[i64], weights: &[i64]) {
    // check that the number of divided rectangles is equal to the number of weights
    assert_eq!(divided_areas.len(), weights.len());

    // check that the sum of divided areas is equal to the original area
    let divided_area: i64 = divided_areas.iter().sum();
    assert_eq!(original_area, divided_area);

    // check that the divided areas are proportional to the weights
    let weight_sum: i64 = weights.iter().sum();
    let area_sum: i64 = divided_areas.iter().sum();
    for (w, a) in weights.iter().zip(divided_areas.iter()) {
        let w_share = *w as f64 / weight_sum as f64;
        let a_share = *a as f64 / area_sum as f64;
        let diff = (w_share - a_share) * (w_share - a_share);
        assert!(diff < 0.1);
    }
}

/// All pieces lie inside the original rectangle and no two consecutive
/// pieces overlap in their interiors.
fn assert_no_overlaps(original: &AxisAlignedRectangle, divided: &[AxisAlignedRectangle]) {
    // check all divided rectangles are inside the original rectangle
    for d in divided {
        assert!(original.encloses(d));
    }
    // check no overlap between divided rectangles
    for (d1, d2) in divided.iter().zip(divided.iter().skip(1)) {
        assert!(!d1.overlaps(d2));
    }
}

/// Each piece's aspect ratio is not too far from the target, weighted by
/// the piece's share: large pieces must come closer to the target shape.
fn assert_respect_aspect_ratio(
    divided: &[AxisAlignedRectangle],
    weights: &[i64],
    aspect_ratio: f64,
) {
    let weight_sum: i64 = weights.iter().sum();
    for (d, w) in divided.iter().zip(weights.iter()) {
        let w_share = *w as f64 / weight_sum as f64;
        let asis_aspect_ratio = d.width() as f64 / d.height() as f64;
        let diff = (asis_aspect_ratio - aspect_ratio).abs();
        assert!(diff * w_share < 0.5);
    }
}

fn areas_of_rects(divided: &[Rectangle]) -> Vec<i64> {
    divided.iter().map(|r| r.area()).collect()
}

fn areas_of(divided: &[AxisAlignedRectangle]) -> Vec<i64> {
    divided.iter().map(|r| r.area()).collect()
}

#[test]
fn test_divide_vertical_then_horizontal_with_weights() {
    let rect = Rectangle::new(100, 100);
    let weights = vec![1, 1, 1, 1];
    let divided = rect.divide_vertical_then_horizontal_with_weights(
        &weights, Ratio::new(1, 1), false);
    assert_weights_dividing(rect.area(), &areas_of_rects(&divided), &weights);
    assert_eq!(divided[0], Rectangle::new(50, 50));
    assert_eq!(divided[1], Rectangle::new(50, 50));
    assert_eq!(divided[2], Rectangle::new(50, 50));
    assert_eq!(divided[3], Rectangle::new(50, 50));

    // not divided case
    let rect = Rectangle::new(100, 100);
    let weights = vec![1];
    let divided = rect.divide_vertical_then_horizontal_with_weights(
        &weights, Ratio::new(1, 1), false);
    assert_weights_dividing(rect.area(), &areas_of_rects(&divided), &weights);
    assert_eq!(divided[0], rect);

    let rect = AxisAlignedRectangle::new(&Point::new(0, 0), &Rectangle::new(100, 100));
    let weights = vec![1, 1, 1, 1];
    let divided = rect.divide_vertical_then_horizontal_with_weights(
        &weights, Ratio::new(1, 1), false);
    assert_weights_dividing(rect.area(), &areas_of(&divided), &weights);
    assert_no_overlaps(&rect, &divided);
    assert_respect_aspect_ratio(&divided, &weights, 1.0);
    assert_eq!(
        divided[0],
        AxisAlignedRectangle::new(&Point::new(0, 0), &Rectangle::new(50, 50))
    );
    assert_eq!(
        divided[1],
        AxisAlignedRectangle::new(&Point::new(0, 50), &Rectangle::new(50, 50))
    );
    assert_eq!(
        divided[2],
        AxisAlignedRectangle::new(&Point::new(50, 0), &Rectangle::new(50, 50))
    );
    assert_eq!(
        divided[3],
        AxisAlignedRectangle::new(&Point::new(50, 50), &Rectangle::new(50, 50))
    );

    // not divided case
    let rect = AxisAlignedRectangle::new(&Point::new(0, 0), &Rectangle::new(100, 100));
    let weights = vec![1];
    let divided = rect.divide_vertical_then_horizontal_with_weights(
        &weights, Ratio::new(1, 1), false);
    assert_weights_dividing(rect.area(), &areas_of(&divided), &weights);
    assert_no_overlaps(&rect, &divided);
    assert_eq!(divided[0], rect);

    let rect = AxisAlignedRectangle::new(&Point::new(0, 0), &Rectangle::new(9, 8));
    let weights = vec![4, 4, 1, 1, 1, 1];
    let divided = rect.divide_vertical_then_horizontal_with_weights(
        &weights, Ratio::new(3, 2), false);
    assert_weights_dividing(rect.area(), &areas_of(&divided), &weights);
    assert_no_overlaps(&rect, &divided);
    assert_respect_aspect_ratio(&divided, &weights, 1.5);
    assert_eq!(
        divided[0],
        AxisAlignedRectangle::new(&Point::new(0, 0), &Rectangle::new(6, 4))
    );
    assert_eq!(
        divided[1],
        AxisAlignedRectangle::new(&Point::new(0, 4), &Rectangle::new(6, 4))
    );
    assert_eq!(
        divided[2],
        AxisAlignedRectangle::new(&Point::new(6, 0), &Rectangle::new(3, 2))
    );
    assert_eq!(
        divided[3],
        AxisAlignedRectangle::new(&Point::new(6, 2), &Rectangle::new(3, 2))
    );
    assert_eq!(
        divided[4],
        AxisAlignedRectangle::new(&Point::new(6, 4), &Rectangle::new(3, 2))
    );
    assert_eq!(
        divided[5],
        AxisAlignedRectangle::new(&Point::new(6, 6), &Rectangle::new(3, 2))
    );

    let rect = AxisAlignedRectangle::new(&Point::new(0, 0), &Rectangle::new(300, 200));
    let weights = vec![4, 3, 2, 1];
    let divided = rect.divide_vertical_then_horizontal_with_weights(
        &weights, Ratio::new(1, 1), false);
    assert_weights_dividing(rect.area(), &areas_of(&divided), &weights);
    assert_no_overlaps(&rect, &divided);
    assert_eq!(
        divided[0],
        AxisAlignedRectangle::new(&Point::new(0, 0), &Rectangle::new(210, 114))
    );
    assert_eq!(
        divided[1],
        AxisAlignedRectangle::new(&Point::new(0, 114), &Rectangle::new(210, 86))
    );
    assert_eq!(
        divided[2],
        AxisAlignedRectangle::new(&Point::new(210, 0), &Rectangle::new(90, 133))
    );
    assert_eq!(
        divided[3],
        AxisAlignedRectangle::new(&Point::new(210, 133), &Rectangle::new(90, 67))
    );
}

#[test]
fn test_divide_horizontal_then_vertical_with_weights() {
    let rect = Rectangle::new(100, 100);
    let weights = vec![1, 1, 1, 1];
    let divided = rect.divide_horizontal_then_vertical_with_weights(
        &weights, Ratio::new(1, 1), false);
    assert_weights_dividing(rect.area(), &areas_of_rects(&divided), &weights);
    assert_eq!(divided[0], Rectangle::new(50, 50));
    assert_eq!(divided[1], Rectangle::new(50, 50));
    assert_eq!(divided[2], Rectangle::new(50, 50));
    assert_eq!(divided[3], Rectangle::new(50, 50));

    // not divided case
    let rect = Rectangle::new(100, 100);
    let weights = vec![1];
    let divided = rect.divide_horizontal_then_vertical_with_weights(
        &weights, Ratio::new(1, 1), false);
    assert_weights_dividing(rect.area(), &areas_of_rects(&divided), &weights);
    assert_eq!(divided[0], rect);

    let rect = AxisAlignedRectangle::new(&Point::new(0, 0), &Rectangle::new(100, 100));
    let weights = vec![1, 1, 1, 1];
    let divided = rect.divide_horizontal_then_vertical_with_weights(
        &weights, Ratio::new(1, 1), false);
    assert_weights_dividing(rect.area(), &areas_of(&divided), &weights);
    assert_no_overlaps(&rect, &divided);
    assert_respect_aspect_ratio(&divided, &weights, 1.0);
    assert_eq!(
        divided[0],
        AxisAlignedRectangle::new(&Point::new(0, 0), &Rectangle::new(50, 50))
    );
    assert_eq!(
        divided[1],
        AxisAlignedRectangle::new(&Point::new(50, 0), &Rectangle::new(50, 50))
    );
    assert_eq!(
        divided[2],
        AxisAlignedRectangle::new(&Point::new(0, 50), &Rectangle::new(50, 50))
    );
    assert_eq!(
        divided[3],
        AxisAlignedRectangle::new(&Point::new(50, 50), &Rectangle::new(50, 50))
    );

    let rect = AxisAlignedRectangle::new(&Point::new(0, 0), &Rectangle::new(8, 9));
    let weights = vec![4, 4, 1, 1, 1, 1];
    // a target of 1/1.5, as an exact rational
    let divided = rect.divide_horizontal_then_vertical_with_weights(
        &weights, Ratio::new(2, 3), false);
    assert_weights_dividing(rect.area(), &areas_of(&divided), &weights);
    assert_no_overlaps(&rect, &divided);
    assert_respect_aspect_ratio(&divided, &weights, 1.0 / 1.5);
    assert_eq!(
        divided[0],
        AxisAlignedRectangle::new(&Point::new(0, 0), &Rectangle::new(4, 6))
    );
    assert_eq!(
        divided[1],
        AxisAlignedRectangle::new(&Point::new(4, 0), &Rectangle::new(4, 6))
    );
    assert_eq!(
        divided[2],
        AxisAlignedRectangle::new(&Point::new(0, 6), &Rectangle::new(2, 3))
    );
    assert_eq!(
        divided[3],
        AxisAlignedRectangle::new(&Point::new(2, 6), &Rectangle::new(2, 3))
    );
    assert_eq!(
        divided[4],
        AxisAlignedRectangle::new(&Point::new(4, 6), &Rectangle::new(2, 3))
    );
    assert_eq!(
        divided[5],
        AxisAlignedRectangle::new(&Point::new(6, 6), &Rectangle::new(2, 3))
    );

    let rect = AxisAlignedRectangle::new(&Point::new(0, 0), &Rectangle::new(300, 200));
    let weights = vec![4, 3, 2, 1];
    let divided = rect.divide_horizontal_then_vertical_with_weights(
        &weights, Ratio::new(1, 1), false);
    assert_weights_dividing(rect.area(), &areas_of(&divided), &weights);
    assert_no_overlaps(&rect, &divided);
    assert_eq!(
        divided[0],
        AxisAlignedRectangle::new(&Point::new(0, 0), &Rectangle::new(133, 180))
    );
    assert_eq!(
        divided[1],
        AxisAlignedRectangle::new(&Point::new(133, 0), &Rectangle::new(100, 180))
    );
    assert_eq!(
        divided[2],
        AxisAlignedRectangle::new(&Point::new(233, 0), &Rectangle::new(67, 180))
    );
    assert_eq!(
        divided[3],
        AxisAlignedRectangle::new(&Point::new(0, 180), &Rectangle::new(300, 20))
    );
}

#[test]
fn test_divide_many() {
    // various pattern
    let rects = vec![
        AxisAlignedRectangle::new(&Point::new(0, 0), &Rectangle::new(100, 100)),
        AxisAlignedRectangle::new(&Point::new(100, 0), &Rectangle::new(100, 300)),
        AxisAlignedRectangle::new(&Point::new(0, 100), &Rectangle::new(300, 100)),
        AxisAlignedRectangle::new(&Point::new(0, 100), &Rectangle::new(300, 300)),
    ];
    let various_weights = vec![vec![
        24, 23, 22, 21, 20, 19, 18, 17, 16, 15, 14, 13, 12, 11, 10, 9, 8, 7, 6, 5, 4, 3, 2, 1,
    ]];
    // aspect ratios 0.5, 1.0 and 2.0, as exact rationals
    let various_aspect_ratio = vec![Ratio::new(1, 2), Ratio::new(1, 1), Ratio::new(2, 1)];
    for rect in &rects {
        for weights in &various_weights {
            let divided = rect.divide_by_weights_and_axis(weights, Axis::Vertical);
            assert_weights_dividing(rect.area(), &areas_of(&divided), weights);
            assert_no_overlaps(rect, &divided);
        }
    }
    for rect in &rects {
        for weights in &various_weights {
            for aspect_ratio in &various_aspect_ratio {
                for boustrophedon in &[false, true] {
                    let target = aspect_ratio.num as f64 / aspect_ratio.den as f64;
                    let own_ratio = rect.width() as f64 / rect.height() as f64;

                    let divided = rect.divide_vertical_then_horizontal_with_weights(
                        weights,
                        *aspect_ratio,
                        *boustrophedon,
                    );
                    assert_respect_aspect_ratio(&divided, weights, target);
                    assert_weights_dividing(rect.area(), &areas_of(&divided), weights);
                    assert_no_overlaps(rect, &divided);
                    assert_respect_aspect_ratio(&divided, weights, own_ratio);

                    let divided = rect.divide_horizontal_then_vertical_with_weights(
                        weights,
                        *aspect_ratio,
                        *boustrophedon,
                    );
                    assert_respect_aspect_ratio(&divided, weights, target);
                    assert_weights_dividing(rect.area(), &areas_of(&divided), weights);
                    assert_no_overlaps(rect, &divided);
                    assert_respect_aspect_ratio(&divided, weights, own_ratio);
                }
            }
        }
    }
}

#[test]
fn test_boustrophedon() {
    let rect = AxisAlignedRectangle::new(&Point::new(0, 0), &Rectangle::new(8, 9));
    let weights = vec![4, 4, 1, 1, 1, 1];
    let divided = rect.divide_horizontal_then_vertical_with_weights(
        &weights, Ratio::new(2, 3), true);
    assert_weights_dividing(rect.area(), &areas_of(&divided), &weights);
    assert_no_overlaps(&rect, &divided);
    assert_respect_aspect_ratio(&divided, &weights, 1.0 / 1.5);
    assert_eq!(
        divided[0],
        AxisAlignedRectangle::new(&Point::new(0, 0), &Rectangle::new(4, 6))
    );
    assert_eq!(
        divided[1],
        AxisAlignedRectangle::new(&Point::new(4, 0), &Rectangle::new(4, 6))
    );
    assert_eq!(
        divided[2],
        AxisAlignedRectangle::new(&Point::new(6, 6), &Rectangle::new(2, 3))
    );
    assert_eq!(
        divided[3],
        AxisAlignedRectangle::new(&Point::new(4, 6), &Rectangle::new(2, 3))
    );
    assert_eq!(
        divided[4],
        AxisAlignedRectangle::new(&Point::new(2, 6), &Rectangle::new(2, 3))
    );
    assert_eq!(
        divided[5],
        AxisAlignedRectangle::new(&Point::new(0, 6), &Rectangle::new(2, 3))
    );

    // the boustrophedon pass keeps the same set of pieces here, with the
    // alternating band's inner ordering reversed
    let forward = rect.divide_horizontal_then_vertical_with_weights(
        &weights, Ratio::new(2, 3), false);
    assert_eq!(divided[0], forward[0]);
    assert_eq!(divided[1], forward[1]);
    assert_eq!(divided[2], forward[5]);
    assert_eq!(divided[3], forward[4]);
    assert_eq!(divided[4], forward[3]);
    assert_eq!(divided[5], forward[2]);
}

#[test]
fn test_divide_large_extents() {
    // the engine handles the largest well-formed rectangle and heavy weights
    let rect = AxisAlignedRectangle::new(
        &Point::new(-1_000_000, -1_000_000),
        &Rectangle::new(2_000_000, 2_000_000),
    );
    let weights = vec![1_000_000, 1_000_000, 1_000_000, 1_000_000];
    let divided = rect.divide_vertical_then_horizontal_with_weights(
        &weights, Ratio::new(1, 1), false);
    assert_eq!(divided.len(), 4);
    assert_weights_dividing(rect.area(), &areas_of(&divided), &weights);
    assert_no_overlaps(&rect, &divided);
    assert_eq!(
        divided[0],
        AxisAlignedRectangle::new(
            &Point::new(-1_000_000, -1_000_000),
            &Rectangle::new(1_000_000, 1_000_000),
        )
    );
}
