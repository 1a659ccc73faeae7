//! The laws the dividing engine obeys: the pieces of a division cover
//! exactly the source area, stay inside the source rectangle, and never
//! overlap one another's interiors.

use vstd::prelude::*;

use crate::axis::Axis;
use crate::axis_aligned_rectangle::{
    spec_rotate_aar, AxisAlignedRectangle,
};
use crate::dividing::{
    band_pieces, group_sums, lemma_group_sums_props, lemma_pieces_by_weights_wf,
    lemma_weight_groups_props, pieces_by_weights, shifted_piece, spec_size_along,
    vertical_division, weight_groups,
};
use crate::ratio::Ratio;
use crate::weight::{
    all_pos, lemma_piece_bounds, lemma_piece_ext_sum_total, lemma_seq_sum_reverse, piece_ext,
    piece_ext_sum, piece_off, seq_sum, weights_ok,
};

verus! {

/// The total area of a list of placed rectangles.
pub open spec fn seq_area(rs: Seq<AxisAlignedRectangle>) -> int
    decreases rs.len(),
{
    if rs.len() == 0 {
        0
    } else {
        seq_area(rs.drop_last()) + rs.last().rectangle.width * rs.last().rectangle.height
    }
}

/// The area of a concatenation is the sum of the areas.
proof fn lemma_seq_area_concat(a: Seq<AxisAlignedRectangle>, b: Seq<AxisAlignedRectangle>)
    ensures
        seq_area(a + b) == seq_area(a) + seq_area(b),
    decreases b.len(),
{
    if b.len() == 0 {
        assert(a + b =~= a);
    } else {
        assert((a + b).drop_last() =~= a + b.drop_last());
        lemma_seq_area_concat(a, b.drop_last());
    }
}

/// Reversing a list of rectangles does not change its total area.
proof fn lemma_seq_area_reverse(rs: Seq<AxisAlignedRectangle>)
    ensures
        seq_area(rs.reverse()) == seq_area(rs),
    decreases rs.len(),
{
    if rs.len() > 0 {
        assert(rs.reverse().drop_last() =~= rs.drop_first().reverse());
        assert(rs.reverse().last() == rs[0]);
        lemma_seq_area_reverse(rs.drop_first());
        lemma_seq_area_head(rs);
    }
}

/// Peeling the first rectangle off a total area.
proof fn lemma_seq_area_head(rs: Seq<AxisAlignedRectangle>)
    requires
        rs.len() > 0,
    ensures
        seq_area(rs) == rs[0].rectangle.width * rs[0].rectangle.height
            + seq_area(rs.drop_first()),
    decreases rs.len(),
{
    if rs.len() == 1 {
        assert(rs.drop_first() =~= Seq::empty());
        assert(rs.drop_last() =~= Seq::empty());
    } else {
        lemma_seq_area_head(rs.drop_last());
        assert(rs.drop_last().drop_first() =~= rs.drop_first().drop_last());
        assert(rs.drop_first().last() == rs.last());
        assert(seq_area(rs.drop_first()) == seq_area(rs.drop_first().drop_last())
            + rs.drop_first().last().rectangle.width * rs.drop_first().last().rectangle.height);
    }
}

/// A quarter rotation swaps each extent, so it keeps every area.
proof fn lemma_seq_area_rotate(rs: Seq<AxisAlignedRectangle>)
    ensures
        seq_area(rs.map_values(|p: AxisAlignedRectangle| spec_rotate_aar(p))) == seq_area(rs),
    decreases rs.len(),
{
    let mapped = rs.map_values(|p: AxisAlignedRectangle| spec_rotate_aar(p));
    if rs.len() > 0 {
        assert(mapped.drop_last()
            =~= rs.drop_last().map_values(|p: AxisAlignedRectangle| spec_rotate_aar(p)));
        lemma_seq_area_rotate(rs.drop_last());
        assert(mapped.last() == spec_rotate_aar(rs.last()));
        assert(rs.last().rectangle.height * rs.last().rectangle.width
            == rs.last().rectangle.width * rs.last().rectangle.height) by (nonlinear_arith);
    }
}

/// The pieces of one weight division cover the rectangle's area exactly.
proof fn lemma_pieces_area_prefix(
    band: AxisAlignedRectangle,
    g: Seq<i64>,
    axis: Axis,
    k: int,
)
    requires
        band.wf(),
        all_pos(g),
        g.len() >= 1,
        0 <= k <= g.len(),
    ensures
        seq_area(pieces_by_weights(band, g, axis).take(k)) == (match axis {
            Axis::Vertical => piece_ext_sum(g, band.rectangle.width, k)
                * band.rectangle.height,
            Axis::Horizontal => piece_ext_sum(g, band.rectangle.height, k)
                * band.rectangle.width,
        }),
    decreases k,
{
    let pieces = pieces_by_weights(band, g, axis);
    let s = spec_size_along(band, axis);
    if k == 0 {
        assert(pieces.take(0) =~= Seq::empty());
        assert(piece_ext_sum(g, s, 0) == 0);
    } else {
        lemma_pieces_area_prefix(band, g, axis, k - 1);
        assert(pieces.take(k).drop_last() =~= pieces.take(k - 1));
        assert(pieces.take(k).last() == pieces[k - 1]);
        lemma_piece_bounds(g, s, k - 1);
        let ext = piece_ext(g, s, k - 1);
        let es = piece_ext_sum(g, s, k - 1);
        match axis {
            Axis::Vertical => {
                assert(pieces[k - 1].rectangle.width == ext);
                assert(pieces[k - 1].rectangle.height == band.rectangle.height);
                assert((es + ext) * band.rectangle.height
                    == es * band.rectangle.height + ext * band.rectangle.height)
                    by (nonlinear_arith);
            }
            Axis::Horizontal => {
                assert(pieces[k - 1].rectangle.height == ext);
                assert(pieces[k - 1].rectangle.width == band.rectangle.width);
                assert((es + ext) * band.rectangle.width
                    == es * band.rectangle.width + ext * band.rectangle.width)
                    by (nonlinear_arith);
            }
        }
    }
}

/// Dividing a rectangle by one weight list conserves its area exactly.
pub proof fn lemma_pieces_by_weights_area(
    band: AxisAlignedRectangle,
    g: Seq<i64>,
    axis: Axis,
)
    requires
        band.wf(),
        all_pos(g),
        g.len() >= 1,
    ensures
        seq_area(pieces_by_weights(band, g, axis))
            == band.rectangle.width * band.rectangle.height,
    decreases g.len(),
{
    let pieces = pieces_by_weights(band, g, axis);
    lemma_pieces_area_prefix(band, g, axis, g.len() as int);
    assert(pieces.take(g.len() as int) =~= pieces);
    match axis {
        Axis::Vertical => {
            lemma_piece_ext_sum_total(g, band.rectangle.width);
        }
        Axis::Horizontal => {
            lemma_piece_ext_sum_total(g, band.rectangle.height);
            assert(band.rectangle.height * band.rectangle.width
                == band.rectangle.width * band.rectangle.height) by (nonlinear_arith);
        }
    }
}

/// The area the first `k` bands of a vertical-major division contribute:
/// their widths' share of the whole, times the height.
proof fn lemma_vertical_division_area_prefix(
    r: AxisAlignedRectangle,
    ws: Seq<i64>,
    ratio: Ratio,
    bous: bool,
    k: int,
)
    requires
        r.wf(),
        weights_ok(ws),
        0 <= k <= weight_groups(ws, r.rectangle.width, r.rectangle.height, ratio).len(),
    ensures
        ({
            let gs = weight_groups(ws, r.rectangle.width, r.rectangle.height, ratio);
            let bands = pieces_by_weights(r, group_sums(gs), Axis::Vertical);
            let parts = Seq::new(
                gs.len(),
                |j: int| band_pieces(bands[j], gs[j], bous && j % 2 == 1),
            );
            seq_area(parts.take(k).flatten())
                == piece_ext_sum(group_sums(gs), r.rectangle.width, k) * r.rectangle.height
        }),
    decreases k,
{
    let gs = weight_groups(ws, r.rectangle.width, r.rectangle.height, ratio);
    let sums = group_sums(gs);
    let bands = pieces_by_weights(r, sums, Axis::Vertical);
    let parts = Seq::new(gs.len(), |j: int| band_pieces(bands[j], gs[j], bous && j % 2 == 1));
    lemma_weight_groups_props(ws, r.rectangle.width, r.rectangle.height, ratio);
    lemma_group_sums_props(gs);
    lemma_pieces_by_weights_wf(r, sums, Axis::Vertical);
    if k == 0 {
        assert(parts.take(0) =~= Seq::<Seq<AxisAlignedRectangle>>::empty());
        assert(Seq::<Seq<AxisAlignedRectangle>>::empty().flatten() =~= Seq::empty());
    } else {
        lemma_vertical_division_area_prefix(r, ws, ratio, bous, k - 1);
        assert(parts.take(k) =~= parts.take(k - 1).push(parts[k - 1]));
        parts.take(k - 1).lemma_flatten_push(parts[k - 1]);
        lemma_seq_area_concat(parts.take(k - 1).flatten(), parts[k - 1]);
        // one band's pieces cover exactly the band's area
        let band = bands[k - 1];
        let g = gs[k - 1];
        let rev = bous && (k - 1) % 2 == 1;
        if rev {
            assert forall|t: int| 0 <= t < g.reverse().len() implies
                1 <= #[trigger] g.reverse()[t] by {
                assert(g.reverse()[t] == g[g.len() - 1 - t]);
            }
            lemma_pieces_by_weights_area(band, g.reverse(), Axis::Horizontal);
            lemma_seq_area_reverse(pieces_by_weights(band, g.reverse(), Axis::Horizontal));
        } else {
            lemma_pieces_by_weights_area(band, g, Axis::Horizontal);
        }
        assert(seq_area(parts[k - 1]) == band.rectangle.width * band.rectangle.height);
        // the band is one piece of the outer split
        let s = r.rectangle.width;
        lemma_piece_bounds(sums, s, k - 1);
        let ext = piece_ext(sums, s, k - 1);
        let es = piece_ext_sum(sums, s, k - 1);
        assert(band.rectangle.width == ext);
        assert(band.rectangle.height == r.rectangle.height);
        assert((es + ext) * r.rectangle.height
            == es * r.rectangle.height + ext * r.rectangle.height) by (nonlinear_arith);
    }
}

/// Area conservation, vertical-major: the pieces of a division cover the
/// source rectangle's area exactly, with no integer rounding loss.
pub proof fn lemma_vertical_division_area(
    r: AxisAlignedRectangle,
    ws: Seq<i64>,
    ratio: Ratio,
    bous: bool,
)
    requires
        r.wf(),
        weights_ok(ws),
        ws.len() >= 1,
    ensures
        seq_area(vertical_division(r, ws, ratio, bous))
            == r.rectangle.width * r.rectangle.height,
{
    let gs = weight_groups(ws, r.rectangle.width, r.rectangle.height, ratio);
    let sums = group_sums(gs);
    lemma_weight_groups_props(ws, r.rectangle.width, r.rectangle.height, ratio);
    lemma_group_sums_props(gs);
    assert(gs.len() >= 1) by {
        if gs.len() == 0 {
            assert(gs.flatten() =~= Seq::<i64>::empty());
        }
    }
    lemma_vertical_division_area_prefix(r, ws, ratio, bous, gs.len() as int);
    let bands = pieces_by_weights(r, sums, Axis::Vertical);
    let parts = Seq::new(gs.len(), |j: int| band_pieces(bands[j], gs[j], bous && j % 2 == 1));
    assert(parts.take(gs.len() as int) =~= parts);
    lemma_piece_ext_sum_total(sums, r.rectangle.width);
}

/// Area conservation, horizontal-major: the mirrored division rotates every
/// piece, and rotation keeps each area.
pub proof fn lemma_horizontal_division_area(
    r: AxisAlignedRectangle,
    ws: Seq<i64>,
    ratio: Ratio,
    bous: bool,
)
    requires
        r.wf(),
        weights_ok(ws),
        ws.len() >= 1,
    ensures
        seq_area(crate::dividing::horizontal_division(r, ws, ratio, bous))
            == r.rectangle.width * r.rectangle.height,
{
    let rotated = spec_rotate_aar(r);
    let inner = vertical_division(rotated, ws, Ratio { num: ratio.den, den: ratio.num }, bous);
    lemma_vertical_division_area(rotated, ws, Ratio { num: ratio.den, den: ratio.num }, bous);
    lemma_seq_area_rotate(inner);
    assert(r.rectangle.height * r.rectangle.width
        == r.rectangle.width * r.rectangle.height) by (nonlinear_arith);
}

/// Weight proportionality: a piece's area relates to the whole area as its
/// weight relates to the weight total, up to the integer rounding of one
/// floor division — less than one `W`-th of a cross-section per piece, the
/// last piece absorbing what the others rounded away.
///
/// All bounds are stated multiplied out: with `big` the weight total and
/// `area` the piece's area, exact proportionality would be
/// `area * big == g[j] * (width * height)`.
pub proof fn lemma_pieces_by_weights_proportional(
    band: AxisAlignedRectangle,
    g: Seq<i64>,
    axis: Axis,
    j: int,
)
    requires
        band.wf(),
        all_pos(g),
        0 <= j < g.len(),
    ensures
        ({
            let p = pieces_by_weights(band, g, axis)[j];
            let area = p.rectangle.width * p.rectangle.height;
            let big = seq_sum(g);
            let src = band.rectangle.width * band.rectangle.height;
            let across = match axis {
                Axis::Vertical => band.rectangle.height as int,
                Axis::Horizontal => band.rectangle.width as int,
            };
            &&& j < g.len() - 1 ==> {
                &&& area * big <= g[j] * src
                &&& g[j] * src <= area * big + big * across
            }
            &&& j == g.len() - 1 ==> {
                &&& g[j] * src <= area * big
                &&& area * big <= g[j] * src + (g.len() - 1) * big * across
            }
        }),
{
    let p = pieces_by_weights(band, g, axis)[j];
    let area = p.rectangle.width * p.rectangle.height;
    let big = seq_sum(g);
    let s = spec_size_along(band, axis);
    let src = band.rectangle.width * band.rectangle.height;
    let across: int = match axis {
        Axis::Vertical => band.rectangle.height as int,
        Axis::Horizontal => band.rectangle.width as int,
    };
    lemma_piece_bounds(g, s, j);
    crate::weight::lemma_piece_proportional(g, s, j);
    let ext = piece_ext(g, s, j);
    assert(ext as i64 == ext);
    assert(area == ext * across) by (nonlinear_arith)
        requires
            (match axis {
                Axis::Vertical => p.rectangle.width == ext
                    && p.rectangle.height == across,
                Axis::Horizontal => p.rectangle.height == ext
                    && p.rectangle.width == across,
            }),
            area == p.rectangle.width * p.rectangle.height,
            ext == piece_ext(g, s, j),
    ;
    assert(src == s * across) by (nonlinear_arith)
        requires
            (match axis {
                Axis::Vertical => s == band.rectangle.width
                    && across == band.rectangle.height,
                Axis::Horizontal => s == band.rectangle.height
                    && across == band.rectangle.width,
            }),
            src == band.rectangle.width * band.rectangle.height,
    ;
    if j < g.len() - 1 {
        assert(area * big <= g[j] * src) by (nonlinear_arith)
            requires
                area == ext * across,
                src == s * across,
                ext * big <= g[j] * s,
                across >= 0,
        ;
        assert(g[j] * src <= area * big + big * across) by (nonlinear_arith)
            requires
                area == ext * across,
                src == s * across,
                g[j] * s < ext * big + big,
                g[j] * s >= ext * big,
                across >= 0,
        ;
    } else {
        assert(g[j] * src <= area * big) by (nonlinear_arith)
            requires
                area == ext * across,
                src == s * across,
                g[j] * s <= ext * big,
                across >= 0,
        ;
        assert(area * big <= g[j] * src + (g.len() - 1) * big * across) by (nonlinear_arith)
            requires
                area == ext * across,
                src == s * across,
                ext * big <= g[j] * s + (g.len() - 1) * big,
                across >= 0,
        ;
    }
}

/// A property of every element of every part holds of every element of the
/// flattened whole.
proof fn lemma_flatten_elem<A>(parts: Seq<Seq<A>>, p: spec_fn(A) -> bool)
    requires
        forall|j: int, t: int| 0 <= j < parts.len() && 0 <= t < parts[j].len()
            ==> p(#[trigger] parts[j][t]),
    ensures
        forall|i: int| 0 <= i < parts.flatten().len() ==> p(#[trigger] parts.flatten()[i]),
    decreases parts.len(),
{
    if parts.len() > 0 {
        let rest = parts.drop_first();
        assert forall|j: int, t: int| 0 <= j < rest.len() && 0 <= t < rest[j].len()
            implies p(#[trigger] rest[j][t]) by {
            assert(rest[j] == parts[j + 1]);
        }
        lemma_flatten_elem(rest, p);
        assert(parts.flatten() == parts.first() + rest.flatten());
        assert forall|i: int| 0 <= i < parts.flatten().len()
            implies p(#[trigger] parts.flatten()[i]) by {
            if i < parts.first().len() {
                assert(parts.flatten()[i] == parts[0][i]);
            } else {
                assert(parts.flatten()[i] == rest.flatten()[i - parts.first().len()]);
            }
        }
    }
}

/// A symmetric relation that holds within each part and across any two
/// parts holds across the flattened whole.
proof fn lemma_flatten_pairwise<A>(parts: Seq<Seq<A>>, rel: spec_fn(A, A) -> bool)
    requires
        forall|j: int, t1: int, t2: int|
            0 <= j < parts.len() && 0 <= t1 < t2 < parts[j].len()
            ==> rel(#[trigger] parts[j][t1], #[trigger] parts[j][t2]),
        forall|j1: int, j2: int, t1: int, t2: int|
            0 <= j1 < j2 < parts.len() && 0 <= t1 < parts[j1].len() && 0 <= t2 < parts[j2].len()
            ==> rel(#[trigger] parts[j1][t1], #[trigger] parts[j2][t2]),
    ensures
        forall|i1: int, i2: int| 0 <= i1 < i2 < parts.flatten().len()
            ==> rel(#[trigger] parts.flatten()[i1], #[trigger] parts.flatten()[i2]),
    decreases parts.len(),
{
    if parts.len() > 0 {
        let first = parts.first();
        let rest = parts.drop_first();
        assert forall|j: int, t1: int, t2: int|
            0 <= j < rest.len() && 0 <= t1 < t2 < rest[j].len()
            implies rel(#[trigger] rest[j][t1], #[trigger] rest[j][t2]) by {
            assert(rest[j] == parts[j + 1]);
        }
        assert forall|j1: int, j2: int, t1: int, t2: int|
            0 <= j1 < j2 < rest.len() && 0 <= t1 < rest[j1].len() && 0 <= t2 < rest[j2].len()
            implies rel(#[trigger] rest[j1][t1], #[trigger] rest[j2][t2]) by {
            assert(rest[j1] == parts[j1 + 1]);
            assert(rest[j2] == parts[j2 + 1]);
        }
        lemma_flatten_pairwise(rest, rel);
        assert(parts.flatten() == first + rest.flatten());
        assert forall|i1: int, i2: int| 0 <= i1 < i2 < parts.flatten().len()
            implies rel(#[trigger] parts.flatten()[i1], #[trigger] parts.flatten()[i2]) by {
            if i2 < first.len() {
                assert(parts.flatten()[i1] == parts[0][i1]);
                assert(parts.flatten()[i2] == parts[0][i2]);
            } else if i1 < first.len() {
                assert(parts.flatten()[i1] == parts[0][i1]);
                let x = parts[0][i1];
                assert forall|j: int, t: int| 0 <= j < rest.len() && 0 <= t < rest[j].len()
                    implies rel(x, #[trigger] rest[j][t]) by {
                    assert(rest[j] == parts[j + 1]);
                }
                lemma_flatten_elem(rest, |y: A| rel(x, y));
                assert(parts.flatten()[i2] == rest.flatten()[i2 - first.len()]);
            } else {
                assert(parts.flatten()[i1] == rest.flatten()[i1 - first.len()]);
                assert(parts.flatten()[i2] == rest.flatten()[i2 - first.len()]);
            }
        }
    }
}

/// A pointwise relation between parts and same-shaped labels carries over
/// to the flattened sequences, position by position.
proof fn lemma_flatten_rel<A, B>(
    parts: Seq<Seq<A>>,
    labels: Seq<Seq<B>>,
    rel: spec_fn(A, B) -> bool,
)
    requires
        parts.len() == labels.len(),
        forall|j: int| 0 <= j < parts.len()
            ==> (#[trigger] parts[j]).len() == labels[j].len(),
        forall|j: int, t: int| 0 <= j < parts.len() && 0 <= t < parts[j].len()
            ==> rel(#[trigger] parts[j][t], #[trigger] labels[j][t]),
    ensures
        parts.flatten().len() == labels.flatten().len(),
        forall|i: int| 0 <= i < parts.flatten().len()
            ==> rel(#[trigger] parts.flatten()[i], labels.flatten()[i]),
    decreases parts.len(),
{
    if parts.len() > 0 {
        let prest = parts.drop_first();
        let lrest = labels.drop_first();
        assert forall|j: int| 0 <= j < prest.len() implies
            (#[trigger] prest[j]).len() == lrest[j].len() by {
            assert(prest[j] == parts[j + 1]);
            assert(lrest[j] == labels[j + 1]);
        }
        assert forall|j: int, t: int| 0 <= j < prest.len() && 0 <= t < prest[j].len()
            implies rel(#[trigger] prest[j][t], #[trigger] lrest[j][t]) by {
            assert(prest[j] == parts[j + 1]);
            assert(lrest[j] == labels[j + 1]);
        }
        lemma_flatten_rel(prest, lrest, rel);
        assert(parts.flatten() == parts.first() + prest.flatten());
        assert(labels.flatten() == labels.first() + lrest.flatten());
        assert forall|i: int| 0 <= i < parts.flatten().len()
            implies rel(#[trigger] parts.flatten()[i], labels.flatten()[i]) by {
            if i < parts.first().len() {
                assert(parts.flatten()[i] == parts[0][i]);
                assert(labels.flatten()[i] == labels[0][i]);
            } else {
                assert(parts.flatten()[i] == prest.flatten()[i - parts.first().len()]);
                assert(labels.flatten()[i] == lrest.flatten()[i - labels.first().len()]);
            }
        }
    }
}

/// There are no more non-empty parts than elements in the flattened whole.
proof fn lemma_flatten_count_le<A>(parts: Seq<Seq<A>>)
    requires
        forall|j: int| 0 <= j < parts.len() ==> (#[trigger] parts[j]).len() >= 1,
    ensures
        parts.len() <= parts.flatten().len(),
    decreases parts.len(),
{
    if parts.len() > 0 {
        let rest = parts.drop_first();
        assert forall|j: int| 0 <= j < rest.len() implies
            (#[trigger] rest[j]).len() >= 1 by {
            assert(rest[j] == parts[j + 1]);
        }
        lemma_flatten_count_le(rest);
        assert(parts.flatten() == parts.first() + rest.flatten());
    }
}

/// No part is longer than the flattened whole.
proof fn lemma_flatten_part_le<A>(parts: Seq<Seq<A>>, j: int)
    requires
        0 <= j < parts.len(),
    ensures
        parts[j].len() <= parts.flatten().len(),
    decreases parts.len(),
{
    assert(parts.flatten() == parts.first() + parts.drop_first().flatten());
    if j > 0 {
        lemma_flatten_part_le(parts.drop_first(), j - 1);
        assert(parts.drop_first()[j - 1] == parts[j]);
    }
}

/// One split's piece tracks its weight's exact share to within one whole
/// rounding unit per weight, whichever piece it is.
proof fn lemma_piece_prop_unified(g: Seq<i64>, s: i64, j: int)
    requires
        all_pos(g),
        0 <= j < g.len(),
        0 <= s,
    ensures
        piece_ext(g, s, j) * seq_sum(g) - g[j] * s <= g.len() * seq_sum(g),
        g[j] * s - piece_ext(g, s, j) * seq_sum(g) <= g.len() * seq_sum(g),
{
    crate::weight::lemma_piece_proportional(g, s, j);
    crate::weight::lemma_seq_sum_all_pos(g);
    let big = seq_sum(g);
    let len = g.len() as int;
    assert((len - 1) * big + big == len * big) by (nonlinear_arith);
    assert(big <= len * big) by (nonlinear_arith)
        requires
            big >= 1,
            len >= 1,
    ;
}

/// Composing the two splits: if the band's extent tracks its group's share
/// of the width and the piece's extent tracks its weight's share of the
/// height, each to within their own rounding units, then the piece's area
/// tracks the weight's share of the whole area to within
/// `total * count * (width + height + count)`.
proof fn lemma_area_error_compose(
    bb: int, hh: int, big: int, gsum: int, w: int, h: int, gt: int, k: int, m: int, n: int,
)
    requires
        bb >= 0,
        hh >= 0,
        big >= 1,
        gsum >= 1,
        w >= 0,
        h >= 0,
        1 <= gt <= gsum,
        gsum <= big,
        1 <= k <= n,
        1 <= m <= n,
        bb * big - gsum * w <= k * big,
        gsum * w - bb * big <= k * big,
        hh * gsum - gt * h <= m * gsum,
        gt * h - hh * gsum <= m * gsum,
    ensures
        (bb * hh) * big - gt * (w * h) <= big * n * (w + h + n),
        gt * (w * h) - (bb * hh) * big <= big * n * (w + h + n),
{
    let e1 = bb * big - gsum * w;
    let e2 = hh * gsum - gt * h;
    // the exact identity behind the error terms
    assert(gsum * ((bb * hh) * big) == (bb * big) * (hh * gsum)) by (nonlinear_arith);
    assert((bb * big) * (hh * gsum) == (gsum * w + e1) * (gt * h + e2)) by (nonlinear_arith)
        requires
            e1 == bb * big - gsum * w,
            e2 == hh * gsum - gt * h,
    ;
    assert((gsum * w + e1) * (gt * h + e2)
        == (gsum * w) * (gt * h) + (gsum * w) * e2 + e1 * (gt * h) + e1 * e2)
        by (nonlinear_arith);
    assert((gsum * w) * (gt * h) == gsum * (gt * (w * h))) by (nonlinear_arith);
    // bound each error term by `gsum` times a share of the final bound
    assert(-(gsum * (w * m * gsum)) <= (gsum * w) * e2 <= gsum * (w * m * gsum))
        by (nonlinear_arith)
        requires
            gsum >= 1,
            w >= 0,
            -(m * gsum) <= e2 <= m * gsum,
    ;
    assert(-(gsum * (h * k * big)) <= e1 * (gt * h) <= gsum * (h * k * big))
        by (nonlinear_arith)
        requires
            h >= 0,
            1 <= gt <= gsum,
            big >= 1,
            k >= 1,
            -(k * big) <= e1 <= k * big,
    ;
    assert(-(gsum * (k * m * big)) <= e1 * e2 <= gsum * (k * m * big)) by (nonlinear_arith)
        requires
            gsum >= 1,
            big >= 1,
            k >= 1,
            m >= 1,
            -(k * big) <= e1 <= k * big,
            -(m * gsum) <= e2 <= m * gsum,
            gsum <= big,
    ;
    // cancel the common factor and relax to the uniform bound
    let area_scaled = (bb * hh) * big;
    let target = gt * (w * h);
    let err = w * m * gsum + h * k * big + k * m * big;
    assert(gsum * area_scaled == gsum * target + (gsum * w) * e2 + e1 * (gt * h) + e1 * e2);
    assert(gsum * err == gsum * (w * m * gsum) + gsum * (h * k * big) + gsum * (k * m * big))
        by (nonlinear_arith)
        requires
            err == w * m * gsum + h * k * big + k * m * big,
    ;
    assert(gsum * (area_scaled - target) == gsum * area_scaled - gsum * target)
        by (nonlinear_arith);
    assert(gsum * (target - area_scaled) == gsum * target - gsum * area_scaled)
        by (nonlinear_arith);
    assert(gsum * (area_scaled - target) <= gsum * err);
    assert(gsum * (target - area_scaled) <= gsum * err);
    assert(area_scaled - target <= err) by (nonlinear_arith)
        requires
            gsum >= 1,
            gsum * (area_scaled - target) <= gsum * err,
    ;
    assert(target - area_scaled <= err) by (nonlinear_arith)
        requires
            gsum >= 1,
            gsum * (target - area_scaled) <= gsum * err,
    ;
    assert(w * m * gsum <= w * n * big) by (nonlinear_arith)
        requires
            w >= 0,
            1 <= m <= n,
            1 <= gsum <= big,
    ;
    assert(h * k * big <= h * n * big) by (nonlinear_arith)
        requires
            h >= 0,
            big >= 1,
            1 <= k <= n,
    ;
    assert(k * m * big <= n * n * big) by (nonlinear_arith)
        requires
            big >= 1,
            1 <= k <= n,
            1 <= m <= n,
    ;
    assert(big * n * (w + h + n) == w * n * big + h * n * big + n * n * big)
        by (nonlinear_arith);
}

/// What one band contributes: pieces that keep the band's horizontal
/// placement, stay inside the band, and stack without interior overlap —
/// whichever way the band is traversed.
proof fn lemma_band_pieces_within(band: AxisAlignedRectangle, g: Seq<i64>, rev: bool)
    requires
        band.wf(),
        all_pos(g),
    ensures
        band_pieces(band, g, rev).len() == g.len(),
        forall|t: int| 0 <= t < g.len() ==> {
            let p = #[trigger] band_pieces(band, g, rev)[t];
            &&& p.wf()
            &&& crate::axis_aligned_rectangle::spec_encloses(band, p)
            &&& p.point.x == band.point.x
            &&& p.rectangle.width == band.rectangle.width
        },
        forall|t1: int, t2: int| 0 <= t1 < t2 < g.len()
            ==> crate::axis_aligned_rectangle::interiors_disjoint(
                #[trigger] band_pieces(band, g, rev)[t1],
                #[trigger] band_pieces(band, g, rev)[t2],
            ),
{
    let gg = if rev { g.reverse() } else { g };
    let inner = pieces_by_weights(band, gg, Axis::Horizontal);
    let h = band.rectangle.height;
    assert(all_pos(gg)) by {
        if rev {
            assert forall|t: int| 0 <= t < g.reverse().len() implies
                1 <= #[trigger] g.reverse()[t] by {
                assert(g.reverse()[t] == g[g.len() - 1 - t]);
            }
        }
    }
    lemma_pieces_by_weights_wf(band, gg, Axis::Horizontal);
    assert forall|u: int| 0 <= u < gg.len() implies {
        let p = #[trigger] inner[u];
        &&& p.point.y == band.point.y + piece_off(gg, h, u)
        &&& p.point.y + p.rectangle.height
            == band.point.y + piece_off(gg, h, u) + piece_ext(gg, h, u)
    } by {
        lemma_piece_bounds(gg, h, u);
        assert((band.point.y + piece_off(gg, h, u)) as i64
            == band.point.y + piece_off(gg, h, u));
        assert(piece_ext(gg, h, u) as i64 == piece_ext(gg, h, u));
    }
    assert forall|u1: int, u2: int| 0 <= u1 < u2 < gg.len() implies
        crate::axis_aligned_rectangle::interiors_disjoint(inner[u1], inner[u2]) by {
        crate::weight::lemma_piece_stacked(gg, h, u1, u2);
    }
    if rev {
        assert forall|t: int| 0 <= t < g.len() implies
            #[trigger] band_pieces(band, g, rev)[t] == inner[g.len() - 1 - t] by {
        }
    }
    assert forall|t1: int, t2: int| 0 <= t1 < t2 < g.len() implies
        crate::axis_aligned_rectangle::interiors_disjoint(
            #[trigger] band_pieces(band, g, rev)[t1],
            #[trigger] band_pieces(band, g, rev)[t2],
        ) by {
        if rev {
            let u1 = g.len() - 1 - t2;
            let u2 = g.len() - 1 - t1;
            assert(band_pieces(band, g, rev)[t1] == inner[u2]);
            assert(band_pieces(band, g, rev)[t2] == inner[u1]);
            assert(crate::axis_aligned_rectangle::interiors_disjoint(inner[u1], inner[u2]));
        } else {
            assert(band_pieces(band, g, rev)[t1] == inner[t1]);
            assert(band_pieces(band, g, rev)[t2] == inner[t2]);
        }
    }
}

/// Every piece of a vertical-major division is well-formed and lies inside
/// the source rectangle, boundary included.
pub proof fn lemma_vertical_division_inside(
    r: AxisAlignedRectangle,
    ws: Seq<i64>,
    ratio: Ratio,
    bous: bool,
)
    requires
        r.wf(),
        weights_ok(ws),
    ensures
        forall|i: int| 0 <= i < vertical_division(r, ws, ratio, bous).len() ==> {
            let p = #[trigger] vertical_division(r, ws, ratio, bous)[i];
            &&& p.wf()
            &&& crate::axis_aligned_rectangle::spec_encloses(r, p)
        },
{
    let gs = weight_groups(ws, r.rectangle.width, r.rectangle.height, ratio);
    let sums = group_sums(gs);
    let bands = pieces_by_weights(r, sums, Axis::Vertical);
    let parts = Seq::new(gs.len(), |j: int| band_pieces(bands[j], gs[j], bous && j % 2 == 1));
    lemma_weight_groups_props(ws, r.rectangle.width, r.rectangle.height, ratio);
    lemma_group_sums_props(gs);
    lemma_pieces_by_weights_wf(r, sums, Axis::Vertical);
    assert forall|j: int, t: int| 0 <= j < parts.len() && 0 <= t < parts[j].len()
        implies ((#[trigger] parts[j][t]).wf()
            && crate::axis_aligned_rectangle::spec_encloses(r, parts[j][t])) by {
        lemma_band_pieces_within(bands[j], gs[j], bous && j % 2 == 1);
    }
    lemma_flatten_elem(
        parts,
        |p: AxisAlignedRectangle| p.wf() && crate::axis_aligned_rectangle::spec_encloses(r, p),
    );
}

/// No two pieces of a vertical-major division overlap in their interiors.
pub proof fn lemma_vertical_division_disjoint(
    r: AxisAlignedRectangle,
    ws: Seq<i64>,
    ratio: Ratio,
    bous: bool,
)
    requires
        r.wf(),
        weights_ok(ws),
    ensures
        forall|i1: int, i2: int|
            0 <= i1 < i2 < vertical_division(r, ws, ratio, bous).len()
            ==> crate::axis_aligned_rectangle::interiors_disjoint(
                #[trigger] vertical_division(r, ws, ratio, bous)[i1],
                #[trigger] vertical_division(r, ws, ratio, bous)[i2],
            ),
{
    let gs = weight_groups(ws, r.rectangle.width, r.rectangle.height, ratio);
    let sums = group_sums(gs);
    let bands = pieces_by_weights(r, sums, Axis::Vertical);
    let parts = Seq::new(gs.len(), |j: int| band_pieces(bands[j], gs[j], bous && j % 2 == 1));
    let w = r.rectangle.width;
    lemma_weight_groups_props(ws, r.rectangle.width, r.rectangle.height, ratio);
    lemma_group_sums_props(gs);
    lemma_pieces_by_weights_wf(r, sums, Axis::Vertical);
    // each band keeps its own stretch of the width
    assert forall|j: int| 0 <= j < gs.len() implies {
        let b = #[trigger] bands[j];
        &&& b.point.x == r.point.x + piece_off(sums, w, j)
        &&& b.point.x + b.rectangle.width
            == r.point.x + piece_off(sums, w, j) + piece_ext(sums, w, j)
    } by {
        lemma_piece_bounds(sums, w, j);
        assert((r.point.x + piece_off(sums, w, j)) as i64 == r.point.x + piece_off(sums, w, j));
        assert(piece_ext(sums, w, j) as i64 == piece_ext(sums, w, j));
    }
    assert forall|j: int, t1: int, t2: int|
        0 <= j < parts.len() && 0 <= t1 < t2 < parts[j].len()
        implies crate::axis_aligned_rectangle::interiors_disjoint(
            #[trigger] parts[j][t1], #[trigger] parts[j][t2]) by {
        lemma_band_pieces_within(bands[j], gs[j], bous && j % 2 == 1);
    }
    assert forall|j1: int, j2: int, t1: int, t2: int|
        0 <= j1 < j2 < parts.len() && 0 <= t1 < parts[j1].len() && 0 <= t2 < parts[j2].len()
        implies crate::axis_aligned_rectangle::interiors_disjoint(
            #[trigger] parts[j1][t1], #[trigger] parts[j2][t2]) by {
        lemma_band_pieces_within(bands[j1], gs[j1], bous && j1 % 2 == 1);
        lemma_band_pieces_within(bands[j2], gs[j2], bous && j2 % 2 == 1);
        crate::weight::lemma_piece_stacked(sums, w, j1, j2);
    }
    lemma_flatten_pairwise(
        parts,
        |a: AxisAlignedRectangle, b: AxisAlignedRectangle|
            crate::axis_aligned_rectangle::interiors_disjoint(a, b),
    );
}

/// Weight proportionality for the full vertical-major division: piece `i`
/// belongs to weight `i`, and its area relates to the source area as that
/// weight relates to the weight total, within an explicit tolerance. With
/// `big` the weight total, `n` the number of weights and the source `w` by
/// `h`, exact proportionality would make `area_i * big` equal
/// `ws[i] * (w * h)`; the two nested integer splits move it by at most
/// `big * n * (w + h + n)`.
pub proof fn lemma_vertical_division_proportional(
    r: AxisAlignedRectangle,
    ws: Seq<i64>,
    ratio: Ratio,
    bous: bool,
)
    requires
        r.wf(),
        weights_ok(ws),
    ensures
        forall|i: int| 0 <= i < vertical_division(r, ws, ratio, bous).len() ==> {
            let p = #[trigger] vertical_division(r, ws, ratio, bous)[i];
            let area = p.rectangle.width * p.rectangle.height;
            let bound = seq_sum(ws) * ws.len()
                * (r.rectangle.width + r.rectangle.height + ws.len());
            &&& area * seq_sum(ws)
                <= ws[i] * (r.rectangle.width * r.rectangle.height) + bound
            &&& ws[i] * (r.rectangle.width * r.rectangle.height) - bound
                <= area * seq_sum(ws)
        },
{
    let w = r.rectangle.width;
    let h = r.rectangle.height;
    let big = seq_sum(ws);
    let n = ws.len() as int;
    let gs = weight_groups(ws, w, h, ratio);
    let sums = group_sums(gs);
    let bands = pieces_by_weights(r, sums, Axis::Vertical);
    let parts = Seq::new(gs.len(), |j: int| band_pieces(bands[j], gs[j], bous && j % 2 == 1));
    lemma_weight_groups_props(ws, w, h, ratio);
    lemma_group_sums_props(gs);
    lemma_pieces_by_weights_wf(r, sums, Axis::Vertical);
    crate::weight::lemma_seq_sum_all_pos(ws);
    if ws.len() == 0 {
        assert(gs.len() == 0) by {
            if gs.len() > 0 {
                lemma_flatten_count_le(gs);
            }
        }
        assert(parts =~= Seq::<Seq<AxisAlignedRectangle>>::empty());
        assert(vertical_division(r, ws, ratio, bous).len() == 0);
    } else {
        let k = gs.len() as int;
        lemma_flatten_count_le(gs);
        let rel = |p: AxisAlignedRectangle, wt: i64| {
            let area = p.rectangle.width * p.rectangle.height;
            &&& area * big <= wt * (w * h) + big * n * (w + h + n)
            &&& wt * (w * h) - big * n * (w + h + n) <= area * big
        };
        assert forall|j: int| 0 <= j < parts.len() implies
            (#[trigger] parts[j]).len() == gs[j].len() by {
        }
        assert forall|j: int, t: int| 0 <= j < parts.len() && 0 <= t < parts[j].len()
            implies rel(#[trigger] parts[j][t], #[trigger] gs[j][t]) by {
            let band = bands[j];
            let g = gs[j];
            let m = g.len() as int;
            let gsum = seq_sum(g);
            lemma_flatten_part_le(gs, j);
            crate::weight::lemma_seq_sum_all_pos(g);
            crate::weight::lemma_seq_sum_elem_le(g, t);
            // the band's extent tracks its group's share of the width
            lemma_piece_bounds(sums, w, j);
            lemma_piece_prop_unified(sums, w, j);
            assert(band.rectangle.width == piece_ext(sums, w, j));
            assert(band.rectangle.height == h);
            assert(sums[j] == gsum);
            // the piece's extent tracks its weight's share of the height
            let rev = bous && j % 2 == 1;
            let gg = if rev { g.reverse() } else { g };
            let u = if rev { m - 1 - t } else { t };
            assert(all_pos(gg) && gg[u] == g[t] && seq_sum(gg) == gsum) by {
                if rev {
                    assert forall|v: int| 0 <= v < g.reverse().len() implies
                        1 <= #[trigger] g.reverse()[v] by {
                        assert(g.reverse()[v] == g[g.len() - 1 - v]);
                    }
                    lemma_seq_sum_reverse(g);
                }
            }
            let p = parts[j][t];
            assert(p == pieces_by_weights(band, gg, Axis::Horizontal)[u]);
            lemma_piece_bounds(gg, h, u);
            lemma_piece_prop_unified(gg, h, u);
            assert(p.rectangle.width == band.rectangle.width);
            assert(p.rectangle.height == piece_ext(gg, h, u));
            crate::weight::lemma_seq_sum_elem_le(gg, u);
            lemma_area_error_compose(
                piece_ext(sums, w, j),
                piece_ext(gg, h, u),
                big as int,
                gsum,
                w as int,
                h as int,
                g[t] as int,
                k,
                m,
                n,
            );
        }
        lemma_flatten_rel(parts, gs, rel);
        assert forall|i: int| 0 <= i < vertical_division(r, ws, ratio, bous).len()
            implies rel(#[trigger] vertical_division(r, ws, ratio, bous)[i], ws[i]) by {
            assert(vertical_division(r, ws, ratio, bous)[i] == parts.flatten()[i]);
            assert(gs.flatten()[i] == ws[i]);
        }
    }
}

/// Weight proportionality for the full horizontal-major division: the
/// mirrored division rotates every piece, and rotation keeps each area, so
/// the same tolerance holds.
pub proof fn lemma_horizontal_division_proportional(
    r: AxisAlignedRectangle,
    ws: Seq<i64>,
    ratio: Ratio,
    bous: bool,
)
    requires
        r.wf(),
        weights_ok(ws),
    ensures
        forall|i: int| 0 <= i < crate::dividing::horizontal_division(r, ws, ratio, bous).len()
            ==> {
            let p = #[trigger] crate::dividing::horizontal_division(r, ws, ratio, bous)[i];
            let area = p.rectangle.width * p.rectangle.height;
            let bound = seq_sum(ws) * ws.len()
                * (r.rectangle.width + r.rectangle.height + ws.len());
            &&& area * seq_sum(ws)
                <= ws[i] * (r.rectangle.width * r.rectangle.height) + bound
            &&& ws[i] * (r.rectangle.width * r.rectangle.height) - bound
                <= area * seq_sum(ws)
        },
{
    let rotated = spec_rotate_aar(r);
    let flipped = Ratio { num: ratio.den, den: ratio.num };
    let inner = vertical_division(rotated, ws, flipped, bous);
    lemma_vertical_division_proportional(rotated, ws, flipped, bous);
    assert forall|i: int|
        0 <= i < crate::dividing::horizontal_division(r, ws, ratio, bous).len()
        implies {
        let p = #[trigger] crate::dividing::horizontal_division(r, ws, ratio, bous)[i];
        let area = p.rectangle.width * p.rectangle.height;
        let bound = seq_sum(ws) * ws.len()
            * (r.rectangle.width + r.rectangle.height + ws.len());
        &&& area * seq_sum(ws) <= ws[i] * (r.rectangle.width * r.rectangle.height) + bound
        &&& ws[i] * (r.rectangle.width * r.rectangle.height) - bound <= area * seq_sum(ws)
    } by {
        let p = crate::dividing::horizontal_division(r, ws, ratio, bous)[i];
        let q = inner[i];
        assert(p == spec_rotate_aar(q));
        assert(q.rectangle.height * q.rectangle.width
            == q.rectangle.width * q.rectangle.height) by (nonlinear_arith);
        assert(rotated.rectangle.height * rotated.rectangle.width
            == rotated.rectangle.width * rotated.rectangle.height) by (nonlinear_arith);
    }
}

/// Every piece of a horizontal-major division is well-formed and lies
/// inside the source rectangle, boundary included.
pub proof fn lemma_horizontal_division_inside(
    r: AxisAlignedRectangle,
    ws: Seq<i64>,
    ratio: Ratio,
    bous: bool,
)
    requires
        r.wf(),
        weights_ok(ws),
    ensures
        forall|i: int| 0 <= i < crate::dividing::horizontal_division(r, ws, ratio, bous).len()
            ==> {
            let p = #[trigger] crate::dividing::horizontal_division(r, ws, ratio, bous)[i];
            &&& p.wf()
            &&& crate::axis_aligned_rectangle::spec_encloses(r, p)
        },
{
    let rotated = spec_rotate_aar(r);
    let flipped = Ratio { num: ratio.den, den: ratio.num };
    lemma_vertical_division_inside(rotated, ws, flipped, bous);
}

/// No two pieces of a horizontal-major division overlap in their interiors.
pub proof fn lemma_horizontal_division_disjoint(
    r: AxisAlignedRectangle,
    ws: Seq<i64>,
    ratio: Ratio,
    bous: bool,
)
    requires
        r.wf(),
        weights_ok(ws),
    ensures
        forall|i1: int, i2: int|
            0 <= i1 < i2 < crate::dividing::horizontal_division(r, ws, ratio, bous).len()
            ==> crate::axis_aligned_rectangle::interiors_disjoint(
                #[trigger] crate::dividing::horizontal_division(r, ws, ratio, bous)[i1],
                #[trigger] crate::dividing::horizontal_division(r, ws, ratio, bous)[i2],
            ),
{
    let rotated = spec_rotate_aar(r);
    let flipped = Ratio { num: ratio.den, den: ratio.num };
    lemma_vertical_division_disjoint(rotated, ws, flipped, bous);
}

} // verus!
