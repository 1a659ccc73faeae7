//! The dividing engine: splitting rectangles at offsets, by weights, and by
//! aspect-ratio-aware greedy grouping.
//!
//! Only the vertical split is a true primitive; the horizontal split is the
//! vertical one conjugated by a quarter rotation, so the two axes cannot
//! drift apart. `divide_by_values` peels one piece per offset, each offset
//! relative to what remains, and appends the remainder. `divide_by_weights`
//! turns a weight list into such offsets (each weight's exact integer share
//! of the extent, the last piece taking what floor division rounds away).
//! The aspect-ratio engines group the weights greedily into bands and split
//! the rectangle twice, outer axis then inner axis.

use vstd::prelude::*;

use crate::axis::Axis;
use crate::axis_aligned_rectangle::{
    spec_encloses, spec_max_x, spec_max_y, spec_min_x, spec_min_y, AxisAlignedRectangle,
    MAX_COORD,
};
use crate::point::Point;
use crate::ratio::Ratio;
use crate::rectangle::{Rectangle, RectangleSize};
use crate::rotate::QuarterRotation;
use crate::weight::{
    all_pos, lemma_piece_bounds, lemma_seq_sum_all_pos, lemma_seq_sum_take_all,
    lemma_seq_sum_take_mono, lemma_seq_sum_take_nonneg, lemma_seq_sum_take_succ, piece_ext,
    piece_off, scaled_at, scaled_prefix, seq_sum, sum_of_weights, weights_ok, MAX_WEIGHT_SUM,
};

verus! {

/// The extent of `r` along `axis`: width for vertical, height for
/// horizontal.
pub open spec fn spec_size_along(r: AxisAlignedRectangle, axis: Axis) -> i64 {
    match axis {
        Axis::Vertical => r.rectangle.width,
        Axis::Horizontal => r.rectangle.height,
    }
}

/// The piece of `r` that starts `off` into `r` along `axis` and extends
/// `ext` from there; the other axis is untouched.
pub open spec fn shifted_piece(r: AxisAlignedRectangle, axis: Axis, off: int, ext: int)
    -> AxisAlignedRectangle {
    match axis {
        Axis::Vertical => AxisAlignedRectangle {
            point: Point { x: (r.point.x + off) as i64, y: r.point.y },
            rectangle: Rectangle { width: ext as i64, height: r.rectangle.height },
        },
        Axis::Horizontal => AxisAlignedRectangle {
            point: Point { x: r.point.x, y: (r.point.y + off) as i64 },
            rectangle: Rectangle { width: r.rectangle.width, height: ext as i64 },
        },
    }
}

/// The pieces that dividing `r` at the given relative offsets along `axis`
/// yields: piece `j` starts where the offsets before it end and extends
/// `values[j]`; one last piece takes the remaining extent.
pub open spec fn pieces_by_values(r: AxisAlignedRectangle, values: Seq<i64>, axis: Axis)
    -> Seq<AxisAlignedRectangle> {
    Seq::new(
        (values.len() + 1) as nat,
        |j: int| if j < values.len() {
            shifted_piece(r, axis, seq_sum(values.take(j)), values[j] as int)
        } else {
            shifted_piece(
                r,
                axis,
                seq_sum(values.take(j)),
                spec_size_along(r, axis) - seq_sum(values.take(j)),
            )
        },
    )
}

/// The pieces that dividing `r` by a weight list along `axis` yields: piece
/// `j` gets weight `j`'s integer share of the extent, the last piece taking
/// also what floor division rounds away.
pub open spec fn pieces_by_weights(r: AxisAlignedRectangle, ws: Seq<i64>, axis: Axis)
    -> Seq<AxisAlignedRectangle> {
    Seq::new(
        ws.len() as nat,
        |j: int| shifted_piece(
            r,
            axis,
            piece_off(ws, spec_size_along(r, axis), j),
            piece_ext(ws, spec_size_along(r, axis), j),
        ),
    )
}

impl Rectangle {
    /// dividing a rectangle into two rectangles (vertical)
    pub fn divide_vertical(&self, x: i64) -> (r: (Rectangle, Rectangle))
        requires
            0 <= x <= self.width,
        ensures
            r.0.width == x,
            r.0.height == self.height,
            r.1.width == self.width - x,
            r.1.height == self.height,
    {
        (
            Rectangle::new(x, self.height),
            Rectangle::new(self.width - x, self.height),
        )
    }

    /// dividing a rectangle into two rectangles (horizontal)
    pub fn divide_horizontal(&self, y: i64) -> (r: (Rectangle, Rectangle))
        requires
            0 <= y <= self.height,
        ensures
            r.0.width == self.width,
            r.0.height == y,
            r.1.width == self.width,
            r.1.height == self.height - y,
    {
        // rotate, divide vertical, rotate back again means divide horizontal
        let rotated = self.rotate_clockwise();
        let (a, b) = rotated.divide_vertical(y);
        (a.rotate_counter_clockwise(), b.rotate_counter_clockwise())
    }

    /// dividing a rectangle into two rectangles specified by axis
    pub fn divide(&self, v: i64, axis: Axis) -> (r: (Rectangle, Rectangle))
        requires
            0 <= v,
            axis == Axis::Vertical ==> v <= self.width,
            axis == Axis::Horizontal ==> v <= self.height,
        ensures
            axis == Axis::Vertical ==> {
                &&& r.0.width == v
                &&& r.0.height == self.height
                &&& r.1.width == self.width - v
                &&& r.1.height == self.height
            },
            axis == Axis::Horizontal ==> {
                &&& r.0.width == self.width
                &&& r.0.height == v
                &&& r.1.width == self.width
                &&& r.1.height == self.height - v
            },
    {
        match axis {
            Axis::Vertical => self.divide_vertical(v),
            Axis::Horizontal => self.divide_horizontal(v),
        }
    }
}

impl AxisAlignedRectangle {
    /// dividing a rectangle into two rectangles (vertical)
    pub fn divide_vertical(&self, x: i64) -> (r: (AxisAlignedRectangle, AxisAlignedRectangle))
        requires
            0 <= x <= self.rectangle.width,
            self.extent_fits(),
        ensures
            r.0 == shifted_piece(*self, Axis::Vertical, 0, x as int),
            r.1 == shifted_piece(*self, Axis::Vertical, x as int, self.rectangle.width - x),
    {
        (
            AxisAlignedRectangle::new(
                &Point::new(self.x(), self.y()),
                &Rectangle::new(x, self.height()),
            ),
            AxisAlignedRectangle::new(
                &Point::new(self.x() + x, self.y()),
                &Rectangle::new(self.width() - x, self.height()),
            ),
        )
    }

    /// dividing a rectangle into two rectangles (horizontal)
    pub fn divide_horizontal(&self, y: i64) -> (r: (AxisAlignedRectangle, AxisAlignedRectangle))
        requires
            0 <= y <= self.rectangle.height,
            self.extent_fits(),
        ensures
            r.0 == shifted_piece(*self, Axis::Horizontal, 0, y as int),
            r.1 == shifted_piece(*self, Axis::Horizontal, y as int, self.rectangle.height - y),
    {
        // rotate, divide vertical, rotate back again means divide horizontal
        let rotated = self.rotate_clockwise();
        let (a, b) = rotated.divide_vertical(y);
        (a.rotate_counter_clockwise(), b.rotate_counter_clockwise())
    }

    /// dividing a rectangle into two rectangles specified by axis
    pub fn divide(&self, v: i64, axis: Axis) -> (r: (AxisAlignedRectangle, AxisAlignedRectangle))
        requires
            0 <= v <= spec_size_along(*self, axis),
            self.extent_fits(),
        ensures
            r.0 == shifted_piece(*self, axis, 0, v as int),
            r.1 == shifted_piece(*self, axis, v as int, spec_size_along(*self, axis) - v),
    {
        match axis {
            Axis::Vertical => self.divide_vertical(v),
            Axis::Horizontal => self.divide_horizontal(v),
        }
    }

    /// dividing a rectangle into specified number of rectangles specified by axis
    ///
    /// Each offset is taken relative to the rectangle that remains after the
    /// pieces before it are peeled off; the remainder is appended, so the
    /// result has one piece more than there are offsets.
    pub fn divide_by_values_and_axis(&self, values: &Vec<i64>, axis: Axis)
        -> (r: Vec<AxisAlignedRectangle>)
        requires
            self.wf(),
            forall|k: int| 0 <= k < values@.len() ==> 0 <= #[trigger] values@[k],
            seq_sum(values@) <= spec_size_along(*self, axis),
        ensures
            r@ == pieces_by_values(*self, values@, axis),
            r@.len() == values@.len() + 1,
    {
        let ghost orig = *self;
        let mut remaining = self.clone();
        let mut divided: Vec<AxisAlignedRectangle> = Vec::new();
        let mut i: usize = 0;
        proof {
            assert(values@.take(0) =~= Seq::empty());
        }
        while i < values.len()
            invariant
                0 <= i <= values@.len(),
                orig.wf(),
                forall|k: int| 0 <= k < values@.len() ==> 0 <= #[trigger] values@[k],
                seq_sum(values@) <= spec_size_along(orig, axis),
                remaining == shifted_piece(
                    orig,
                    axis,
                    seq_sum(values@.take(i as int)),
                    spec_size_along(orig, axis) - seq_sum(values@.take(i as int)),
                ),
                divided@.len() == i,
                forall|j: int| 0 <= j < i ==> #[trigger] divided@[j]
                    == pieces_by_values(orig, values@, axis)[j],
            decreases values@.len() - i,
        {
            let ghost pre = seq_sum(values@.take(i as int));
            proof {
                lemma_seq_sum_take_succ(values@, i as int);
                lemma_seq_sum_take_nonneg(values@, i as int);
                lemma_seq_sum_take_mono(values@, i + 1 as int, values@.len() as int);
                lemma_seq_sum_take_all(values@);
            }
            let v = values[i];
            let (piece, rest) = remaining.divide(v, axis);
            proof {
                assert(remaining.extent_fits());
                assert(piece == shifted_piece(orig, axis, pre, v as int));
                assert(rest == shifted_piece(
                    orig,
                    axis,
                    pre + v,
                    spec_size_along(orig, axis) - (pre + v),
                ));
            }
            divided.push(piece);
            remaining = rest;
            i = i + 1;
        }
        divided.push(remaining);
        proof {
            assert(divided@ =~= pieces_by_values(orig, values@, axis));
        }
        divided
    }

    /// dividing a rectangle into specified weights of rectangles specified by axis
    ///
    /// Piece `j` gets weight `j`'s integer share of the extent along `axis`;
    /// the last piece takes also what the floor divisions round away, so the
    /// pieces always cover the extent exactly. An empty weight list yields
    /// an empty result, a single weight the rectangle itself, unsplit.
    pub fn divide_by_weights_and_axis(&self, weights: &Vec<i64>, axis: Axis)
        -> (r: Vec<AxisAlignedRectangle>)
        requires
            self.wf(),
            weights_ok(weights@),
        ensures
            r@ == pieces_by_weights(*self, weights@, axis),
            r@.len() == weights@.len(),
    {
        let ghost orig = *self;
        let ghost ws = weights@;
        let n = weights.len();
        if n == 0 {
            let r: Vec<AxisAlignedRectangle> = Vec::new();
            proof {
                assert(r@ =~= pieces_by_weights(orig, ws, axis));
            }
            return r;
        }
        if n == 1 {
            let mut r: Vec<AxisAlignedRectangle> = Vec::new();
            r.push(self.clone());
            proof {
                assert(r@ =~= pieces_by_weights(orig, ws, axis));
            }
            return r;
        }
        let total = sum_of_weights(weights);
        proof {
            lemma_seq_sum_all_pos(ws);
        }
        let size = match axis {
            Axis::Vertical => self.rectangle.width,
            Axis::Horizontal => self.rectangle.height,
        };
        let mut values: Vec<i64> = Vec::new();
        let mut j: usize = 0;
        while j < n - 1
            invariant
                0 <= j <= n - 1,
                n == ws.len(),
                n >= 2,
                ws == weights@,
                orig.wf(),
                weights_ok(ws),
                total == seq_sum(ws),
                total >= 1,
                0 <= size <= 2 * MAX_COORD,
                size == spec_size_along(orig, axis),
                values@.len() == j,
                forall|k: int| 0 <= k < j ==> #[trigger] values@[k] == scaled_at(ws, size, k),
            decreases n - j,
        {
            proof {
                crate::weight::lemma_seq_sum_elem_le(ws, j as int);
                vstd::arithmetic::mul::lemma_mul_nonnegative(ws[j as int] as int, size as int);
                vstd::arithmetic::mul::lemma_mul_upper_bound(
                    ws[j as int] as int, MAX_WEIGHT_SUM as int, size as int, 2 * MAX_COORD as int);
            }
            let v = (weights[j] * size) / total;
            values.push(v);
            j = j + 1;
        }
        proof {
            assert forall|k: int| 0 <= k < values@.len() implies 0 <= #[trigger] values@[k] by {
                crate::weight::lemma_scaled_at_bounds(ws, size, k);
            }
            crate::weight::lemma_scaled_values_prefix(ws, size, values@, n - 1 as int);
            crate::weight::lemma_scaled_prefix_props(ws, size, n - 1 as int);
            lemma_seq_sum_take_all(values@);
            assert(values@.take(n - 1 as int) =~= values@);
        }
        let r = self.divide_by_values_and_axis(&values, axis);
        proof {
            assert forall|k: int| 0 <= k <= values@.len() implies
                seq_sum(#[trigger] values@.take(k)) == scaled_prefix(ws, size, k) by {
                crate::weight::lemma_scaled_values_prefix(ws, size, values@, k);
            }
            assert(r@ =~= pieces_by_weights(orig, ws, axis));
        }
        r
    }
}

/// Whether the group being gathered is wide enough to close: the aspect
/// ratio its first piece would get has reached or passed the target.
///
/// A band whose group sums to `gsum` out of `total` gets a `gsum/total`
/// share of the area, so its outer extent is `w0 * gsum / total`; the first
/// piece's inner extent is `first / gsum` of the band's inner extent `h`.
/// The first piece's ratio `(w0*gsum/total) / (first*h/gsum)` reaches the
/// target `num/den` exactly when `den*w0*gsum^2 >= num*total*h*first`, a
/// comparison free of any rounding.
pub open spec fn group_closes(w0: i64, h: i64, ratio: Ratio, total: int, gsum: int, first: i64)
    -> bool {
    ratio.den * w0 * gsum * gsum >= ratio.num * total * h * first
}

/// The greedy grouping pass over the weights, from position `i` on, with
/// `cur` the group being gathered and `acc` the groups already closed:
/// each weight joins the current group, and the group closes as soon as
/// `group_closes` holds; a last partial group closes at the end.
pub open spec fn groups_rec(
    ws: Seq<i64>,
    i: int,
    cur: Seq<i64>,
    acc: Seq<Seq<i64>>,
    w0: i64,
    h: i64,
    ratio: Ratio,
    total: int,
) -> Seq<Seq<i64>>
    decreases ws.len() - i,
{
    if i < 0 || i >= ws.len() {
        if cur.len() > 0 {
            acc.push(cur)
        } else {
            acc
        }
    } else {
        let cur2 = cur.push(ws[i]);
        if group_closes(w0, h, ratio, total, seq_sum(cur2), cur2[0]) {
            groups_rec(ws, i + 1, Seq::empty(), acc.push(cur2), w0, h, ratio, total)
        } else {
            groups_rec(ws, i + 1, cur2, acc, w0, h, ratio, total)
        }
    }
}

/// The bands the greedy grouping pass cuts the weight list into: a partition
/// of the list into consecutive non-empty groups, in order.
pub open spec fn weight_groups(ws: Seq<i64>, w0: i64, h: i64, ratio: Ratio) -> Seq<Seq<i64>> {
    groups_rec(ws, 0, Seq::empty(), Seq::empty(), w0, h, ratio, seq_sum(ws))
}

/// The weight each band carries into the outer split: its group's sum.
pub open spec fn group_sums(gs: Seq<Seq<i64>>) -> Seq<i64> {
    Seq::new(gs.len(), |j: int| seq_sum(gs[j]) as i64)
}

/// What the grouping pass yields: concatenating the groups in order gives
/// back exactly the weights from position `i` on (after what is already in
/// `acc` and `cur`), every group is non-empty, and positive weights make
/// positive groups.
pub proof fn lemma_groups_rec_props(
    ws: Seq<i64>,
    i: int,
    cur: Seq<i64>,
    acc: Seq<Seq<i64>>,
    w0: i64,
    h: i64,
    ratio: Ratio,
    total: int,
)
    requires
        0 <= i <= ws.len(),
    ensures
        groups_rec(ws, i, cur, acc, w0, h, ratio, total).flatten()
            == acc.flatten() + cur + ws.skip(i),
        (forall|j: int| 0 <= j < acc.len() ==> (#[trigger] acc[j]).len() >= 1)
            ==> forall|j: int| 0 <= j < groups_rec(ws, i, cur, acc, w0, h, ratio, total).len()
                ==> (#[trigger] groups_rec(ws, i, cur, acc, w0, h, ratio, total)[j]).len() >= 1,
        (all_pos(ws) && all_pos(cur)
            && (forall|j: int| 0 <= j < acc.len() ==> all_pos(#[trigger] acc[j])))
            ==> forall|j: int| 0 <= j < groups_rec(ws, i, cur, acc, w0, h, ratio, total).len()
                ==> all_pos(#[trigger] groups_rec(ws, i, cur, acc, w0, h, ratio, total)[j]),
    decreases ws.len() - i,
{
    let gs = groups_rec(ws, i, cur, acc, w0, h, ratio, total);
    if i >= ws.len() {
        assert(ws.skip(i) =~= Seq::empty());
        if cur.len() > 0 {
            acc.lemma_flatten_push(cur);
            assert(acc.push(cur).flatten() =~= acc.flatten() + cur + ws.skip(i));
        } else {
            assert(acc.flatten() =~= acc.flatten() + cur + ws.skip(i));
        }
    } else {
        let cur2 = cur.push(ws[i]);
        assert(cur2 + ws.skip(i + 1) =~= cur + ws.skip(i));
        if group_closes(w0, h, ratio, total, seq_sum(cur2), cur2[0]) {
            lemma_groups_rec_props(ws, i + 1, Seq::empty(), acc.push(cur2), w0, h, ratio, total);
            acc.lemma_flatten_push(cur2);
            assert(acc.push(cur2).flatten() + Seq::<i64>::empty() + ws.skip(i + 1)
                =~= acc.flatten() + cur + ws.skip(i));
        } else {
            lemma_groups_rec_props(ws, i + 1, cur2, acc, w0, h, ratio, total);
            assert(acc.flatten() + cur2 + ws.skip(i + 1) =~= acc.flatten() + cur + ws.skip(i));
        }
    }
}

/// The grouping pass partitions the weight list: the groups concatenate
/// back to it, none is empty, and all stay positive.
pub proof fn lemma_weight_groups_props(ws: Seq<i64>, w0: i64, h: i64, ratio: Ratio)
    requires
        all_pos(ws),
    ensures
        weight_groups(ws, w0, h, ratio).flatten() == ws,
        forall|j: int| 0 <= j < weight_groups(ws, w0, h, ratio).len()
            ==> (#[trigger] weight_groups(ws, w0, h, ratio)[j]).len() >= 1,
        forall|j: int| 0 <= j < weight_groups(ws, w0, h, ratio).len()
            ==> all_pos(#[trigger] weight_groups(ws, w0, h, ratio)[j]),
{
    lemma_groups_rec_props(
        ws, 0, Seq::empty(), Seq::empty(), w0, h, ratio, seq_sum(ws));
    assert(Seq::<Seq<i64>>::empty().flatten() + Seq::<i64>::empty() + ws.skip(0) =~= ws);
}

/// The band weights inherit what the groups have: each band weight is its
/// group's (positive) sum, and the band weights sum to the full total.
pub proof fn lemma_group_sums_props(gs: Seq<Seq<i64>>)
    requires
        forall|j: int| 0 <= j < gs.len() ==> (#[trigger] gs[j]).len() >= 1,
        forall|j: int| 0 <= j < gs.len() ==> all_pos(#[trigger] gs[j]),
        seq_sum(gs.flatten()) <= MAX_WEIGHT_SUM,
    ensures
        seq_sum(group_sums(gs)) == seq_sum(gs.flatten()),
        forall|j: int| 0 <= j < gs.len()
            ==> 1 <= seq_sum(#[trigger] gs[j]) <= seq_sum(gs.flatten()),
        all_pos(group_sums(gs)),
    decreases gs.len(),
{
    if gs.len() == 0 {
        assert(group_sums(gs) =~= Seq::empty());
    } else {
        let rest = gs.drop_first();
        crate::weight::lemma_seq_sum_concat(gs.first(), rest.flatten());
        assert(gs.flatten() == gs.first() + rest.flatten());
        lemma_seq_sum_all_pos(gs.first());
        assert(seq_sum(rest.flatten()) >= 0) by {
            lemma_sum_of_groups_nonneg(rest);
        }
        lemma_group_sums_props(rest);
        // the head's sum is in range, so its cast in `group_sums` is exact
        assert(group_sums(gs)[0] == seq_sum(gs[0]));
        assert(group_sums(gs).drop_first() =~= group_sums(rest));
        crate::weight::lemma_seq_sum_head(group_sums(gs));
        assert forall|j: int| 0 <= j < gs.len() implies
            1 <= seq_sum(#[trigger] gs[j]) <= seq_sum(gs.flatten()) by {
            if j > 0 {
                assert(gs[j] == rest[j - 1]);
            }
        }
        assert forall|j: int| 0 <= j < group_sums(gs).len() implies
            1 <= #[trigger] group_sums(gs)[j] by {
            if j > 0 {
                assert(group_sums(gs)[j] == group_sums(rest)[j - 1]);
            }
        }
    }
}

/// Concatenating groups of non-negative weights gives a non-negative sum.
pub proof fn lemma_sum_of_groups_nonneg(gs: Seq<Seq<i64>>)
    requires
        forall|j: int| 0 <= j < gs.len() ==> all_pos(#[trigger] gs[j]),
    ensures
        seq_sum(gs.flatten()) >= 0,
    decreases gs.len(),
{
    if gs.len() > 0 {
        lemma_sum_of_groups_nonneg(gs.drop_first());
        crate::weight::lemma_seq_sum_concat(gs.first(), gs.drop_first().flatten());
        lemma_seq_sum_all_pos(gs.first());
    }
}

/// Two sequences of sequences with matching part lengths flatten to the
/// same length.
pub proof fn lemma_flatten_len_match<A, B>(xs: Seq<Seq<A>>, ys: Seq<Seq<B>>)
    requires
        xs.len() == ys.len(),
        forall|j: int| 0 <= j < xs.len() ==> (#[trigger] xs[j]).len() == ys[j].len(),
    ensures
        xs.flatten().len() == ys.flatten().len(),
    decreases xs.len(),
{
    if xs.len() > 0 {
        lemma_flatten_len_match(xs.drop_first(), ys.drop_first());
        assert(xs.flatten() == xs.first() + xs.drop_first().flatten());
        assert(ys.flatten() == ys.first() + ys.drop_first().flatten());
    }
}

/// The pieces a band contributes, in output order: the band is split along
/// the inner axis by its group's weights; a band traversed backwards splits
/// by the reversed weights and hands its pieces back in reversed order, so
/// piece `t` still belongs to weight `t` of the group.
pub open spec fn band_pieces(band: AxisAlignedRectangle, g: Seq<i64>, rev: bool)
    -> Seq<AxisAlignedRectangle> {
    if rev {
        pieces_by_weights(band, g.reverse(), Axis::Horizontal).reverse()
    } else {
        pieces_by_weights(band, g, Axis::Horizontal)
    }
}

/// The full vertical-major division: group the weights, split the rectangle
/// into one vertical band per group, split each band horizontally by its
/// group, alternating the traversal direction per band when `bous` is set.
pub open spec fn vertical_division(
    r: AxisAlignedRectangle,
    ws: Seq<i64>,
    ratio: Ratio,
    bous: bool,
) -> Seq<AxisAlignedRectangle> {
    let gs = weight_groups(ws, r.rectangle.width, r.rectangle.height, ratio);
    let bands = pieces_by_weights(r, group_sums(gs), Axis::Vertical);
    Seq::new(gs.len(), |j: int| band_pieces(bands[j], gs[j], bous && j % 2 == 1)).flatten()
}

/// The views of a list of weight groups.
pub open spec fn views_of(gs: Seq<Vec<i64>>) -> Seq<Seq<i64>> {
    gs.map_values(|g: Vec<i64>| g@)
}

/// Appending one weight to a group adds it to the group's sum.
proof fn lemma_seq_sum_push(ws: Seq<i64>, w: i64)
    ensures
        seq_sum(ws.push(w)) == seq_sum(ws) + w,
{
    assert(ws.push(w).drop_last() =~= ws);
}

/// Reverse a list of weights.
fn reversed_weights(v: &Vec<i64>) -> (r: Vec<i64>)
    ensures
        r@ == v@.reverse(),
{
    let n = v.len();
    let mut r: Vec<i64> = Vec::new();
    let mut i: usize = 0;
    while i < n
        invariant
            n == v@.len(),
            0 <= i <= n,
            r@.len() == i,
            forall|k: int| 0 <= k < i ==> #[trigger] r@[k] == v@[n - 1 - k],
        decreases n - i,
    {
        r.push(v[n - 1 - i]);
        i = i + 1;
    }
    proof {
        assert(r@ =~= v@.reverse());
    }
    r
}

/// Reverse a list of rectangles.
fn reversed_rects(v: &Vec<AxisAlignedRectangle>) -> (r: Vec<AxisAlignedRectangle>)
    ensures
        r@ == v@.reverse(),
{
    let n = v.len();
    let mut r: Vec<AxisAlignedRectangle> = Vec::new();
    let mut i: usize = 0;
    while i < n
        invariant
            n == v@.len(),
            0 <= i <= n,
            r@.len() == i,
            forall|k: int| 0 <= k < i ==> #[trigger] r@[k] == v@[n - 1 - k],
        decreases n - i,
    {
        r.push(v[n - 1 - i]);
        i = i + 1;
    }
    proof {
        assert(r@ =~= v@.reverse());
    }
    r
}

impl AxisAlignedRectangle {
    /// Divide the rectangle into one piece per weight, vertical-major:
    /// greedily group the weights into bands (closing a band as soon as its
    /// first piece's aspect ratio reaches the target), split the width by
    /// the band sums, then split each band's height by its group's weights.
    /// With `boustrophedon` every other band is traversed backwards, but
    /// piece `i` of the result always belongs to weight `i`.
    pub fn divide_vertical_then_horizontal_with_weights(
        &self,
        weights: &Vec<i64>,
        aspect_ratio: Ratio,
        boustrophedon: bool,
    ) -> (r: Vec<AxisAlignedRectangle>)
        requires
            self.wf(),
            self.rectangle.width >= 1,
            self.rectangle.height >= 1,
            aspect_ratio.wf(),
            weights_ok(weights@),
        ensures
            r@ == vertical_division(*self, weights@, aspect_ratio, boustrophedon),
            r@.len() == weights@.len(),
    {
        let ghost orig = *self;
        let ghost ws = weights@;
        let w0 = self.rectangle.width;
        let h = self.rectangle.height;
        let ghost gs = weight_groups(ws, w0, h, aspect_ratio);
        let total = sum_of_weights(weights);

        // greedy grouping pass
        let mut groups: Vec<Vec<i64>> = Vec::new();
        let mut sums: Vec<i64> = Vec::new();
        let mut cur: Vec<i64> = Vec::new();
        let mut cur_sum: i64 = 0;
        let mut i: usize = 0;
        proof {
            assert(views_of(groups@) =~= Seq::<Seq<i64>>::empty());
            assert(views_of(groups@).flatten() + cur@ =~= ws.take(0));
        }
        while i < weights.len()
            invariant
                0 <= i <= ws.len(),
                ws == weights@,
                weights_ok(ws),
                total == seq_sum(ws),
                w0 == orig.rectangle.width,
                h == orig.rectangle.height,
                orig.wf(),
                w0 >= 1,
                h >= 1,
                aspect_ratio.wf(),
                gs == weight_groups(ws, w0, h, aspect_ratio),
                groups_rec(ws, i as int, cur@, views_of(groups@), w0, h, aspect_ratio,
                    total as int) == gs,
                cur_sum == seq_sum(cur@),
                all_pos(cur@),
                views_of(groups@).flatten() + cur@ == ws.take(i as int),
                forall|j: int| 0 <= j < groups@.len()
                    ==> all_pos(#[trigger] views_of(groups@)[j]),
                sums@.len() == groups@.len(),
                forall|j: int| 0 <= j < sums@.len()
                    ==> #[trigger] sums@[j] == seq_sum(views_of(groups@)[j]),
            decreases ws.len() - i,
        {
            let ghost pre_groups = views_of(groups@);
            let ghost pre_cur = cur@;
            proof {
                // the running group's sum stays within the total
                lemma_seq_sum_take_succ(ws, i as int);
                lemma_seq_sum_take_mono(ws, i + 1 as int, ws.len() as int);
                lemma_seq_sum_take_all(ws);
                lemma_sum_of_groups_nonneg(pre_groups);
                crate::weight::lemma_seq_sum_concat(pre_groups.flatten(), pre_cur);
            }
            let w = weights[i];
            let first = if cur.len() == 0 { w } else { cur[0] };
            let new_sum = cur_sum + w;
            cur.push(w);
            proof {
                lemma_seq_sum_push(pre_cur, w);
                assert(cur@ == pre_cur.push(w));
                assert(cur@[0] == first);
                assert(new_sum == seq_sum(cur@));
                crate::weight::lemma_seq_sum_elem_le(cur@, 0);
                // the close test's products stay inside `i128`
                vstd::arithmetic::mul::lemma_mul_nonnegative(
                    aspect_ratio.den as int, w0 as int);
                vstd::arithmetic::mul::lemma_mul_upper_bound(
                    aspect_ratio.den as int, 1_000_000, w0 as int, 2_000_000);
                vstd::arithmetic::mul::lemma_mul_nonnegative(
                    aspect_ratio.den * w0 as int, new_sum as int);
                vstd::arithmetic::mul::lemma_mul_upper_bound(
                    aspect_ratio.den * w0 as int, 2_000_000_000_000, new_sum as int,
                    MAX_WEIGHT_SUM as int);
                vstd::arithmetic::mul::lemma_mul_nonnegative(
                    aspect_ratio.den * w0 * new_sum as int, new_sum as int);
                vstd::arithmetic::mul::lemma_mul_upper_bound(
                    aspect_ratio.den * w0 * new_sum as int,
                    2_000_000_000_000_000_000_000_000,
                    new_sum as int, MAX_WEIGHT_SUM as int);
                vstd::arithmetic::mul::lemma_mul_nonnegative(
                    aspect_ratio.num as int, total as int);
                vstd::arithmetic::mul::lemma_mul_upper_bound(
                    aspect_ratio.num as int, 1_000_000, total as int, MAX_WEIGHT_SUM as int);
                vstd::arithmetic::mul::lemma_mul_nonnegative(
                    aspect_ratio.num * total as int, h as int);
                vstd::arithmetic::mul::lemma_mul_upper_bound(
                    aspect_ratio.num * total as int, 1_000_000_000_000_000_000, h as int,
                    2_000_000);
                vstd::arithmetic::mul::lemma_mul_nonnegative(
                    aspect_ratio.num * total * h as int, first as int);
                vstd::arithmetic::mul::lemma_mul_upper_bound(
                    aspect_ratio.num * total * h as int,
                    2_000_000_000_000_000_000_000_000,
                    first as int, MAX_WEIGHT_SUM as int);
            }
            let lhs = (aspect_ratio.den as i128) * (w0 as i128) * (new_sum as i128)
                * (new_sum as i128);
            let rhs = (aspect_ratio.num as i128) * (total as i128) * (h as i128)
                * (first as i128);
            if lhs >= rhs {
                groups.push(cur);
                sums.push(new_sum);
                cur = Vec::new();
                cur_sum = 0;
                proof {
                    assert(views_of(groups@) =~= pre_groups.push(pre_cur.push(w)));
                    pre_groups.lemma_flatten_push(pre_cur.push(w));
                    assert(views_of(groups@).flatten() + cur@ =~= ws.take(i + 1 as int));
                }
            } else {
                cur_sum = new_sum;
                proof {
                    assert(pre_groups.flatten() + cur@ =~= ws.take(i + 1 as int));
                }
            }
            i = i + 1;
        }
        if cur.len() > 0 {
            groups.push(cur);
            sums.push(cur_sum);
            proof {
                assert(views_of(groups@)
                    =~= views_of(groups@.drop_last()).push(groups@.last()@));
            }
        }
        proof {
            assert(views_of(groups@) == gs);
            lemma_weight_groups_props(ws, w0, h, aspect_ratio);
            lemma_group_sums_props(gs);
            assert(sums@ =~= group_sums(gs));
        }

        // outer split: one vertical band per group
        let bands = self.divide_by_weights_and_axis(&sums, Axis::Vertical);
        proof {
            lemma_pieces_by_weights_wf(orig, group_sums(gs), Axis::Vertical);
        }

        // inner split: each band by its own group, every other band
        // traversed backwards in boustrophedon mode
        let ghost parts = Seq::new(
            gs.len(),
            |jj: int| band_pieces(bands@[jj], gs[jj], boustrophedon && jj % 2 == 1),
        );
        let mut out: Vec<AxisAlignedRectangle> = Vec::new();
        let mut j: usize = 0;
        proof {
            assert(out@ =~= parts.take(0).flatten());
        }
        while j < groups.len()
            invariant
                0 <= j <= groups@.len(),
                groups@.len() == gs.len(),
                views_of(groups@) == gs,
                gs == weight_groups(ws, orig.rectangle.width, orig.rectangle.height,
                    aspect_ratio),
                ws == weights@,
                weights_ok(ws),
                orig.wf(),
                forall|jj: int| 0 <= jj < gs.len() ==> (#[trigger] gs[jj]).len() >= 1,
                forall|jj: int| 0 <= jj < gs.len() ==> all_pos(#[trigger] gs[jj]),
                forall|jj: int| 0 <= jj < gs.len()
                    ==> 1 <= seq_sum(#[trigger] gs[jj]) <= MAX_WEIGHT_SUM,
                bands@ == pieces_by_weights(orig, group_sums(gs), Axis::Vertical),
                bands@.len() == gs.len(),
                forall|jj: int| 0 <= jj < bands@.len() ==> (#[trigger] bands@[jj]).wf(),
                parts == Seq::new(
                    gs.len(),
                    |jj: int| band_pieces(bands@[jj], gs[jj], boustrophedon && jj % 2 == 1),
                ),
                out@ == parts.take(j as int).flatten(),
            decreases groups@.len() - j,
        {
            let ghost g = gs[j as int];
            let rev = boustrophedon && j % 2 == 1;
            let band = bands[j];
            let mut pieces: Vec<AxisAlignedRectangle>;
            if rev {
                let rws = reversed_weights(&groups[j]);
                proof {
                    assert(rws@ == g.reverse());
                    assert forall|k: int| 0 <= k < rws@.len() implies
                        1 <= #[trigger] rws@[k] by {
                        assert(rws@[k] == g[g.len() - 1 - k]);
                    }
                    crate::weight::lemma_seq_sum_reverse(g);
                }
                let p = band.divide_by_weights_and_axis(&rws, Axis::Horizontal);
                pieces = reversed_rects(&p);
                proof {
                    assert(pieces@ == band_pieces(bands@[j as int], g, true));
                }
            } else {
                pieces = band.divide_by_weights_and_axis(&groups[j], Axis::Horizontal);
                proof {
                    assert(views_of(groups@)[j as int] == groups@[j as int]@);
                    assert(pieces@ == band_pieces(bands@[j as int], g, false));
                }
            }
            proof {
                assert(parts.take(j + 1 as int) =~= parts.take(j as int).push(
                    parts[j as int]));
                parts.take(j as int).lemma_flatten_push(parts[j as int]);
            }
            out.append(&mut pieces);
            j = j + 1;
        }
        proof {
            assert(parts.take(gs.len() as int) =~= parts);
            assert(out@ == vertical_division(orig, ws, aspect_ratio, boustrophedon));
            lemma_flatten_len_match(parts, gs);
            assert forall|jj: int| 0 <= jj < parts.len() implies
                (#[trigger] parts[jj]).len() == gs[jj].len() by {
            }
        }
        out
    }
}

/// The full horizontal-major division: the vertical-major division of the
/// quarter-rotated rectangle with the reciprocal target ratio, every piece
/// rotated back. The quarter rotation of a positioned rectangle is an
/// involution, so rotating back is the same map.
pub open spec fn horizontal_division(
    r: AxisAlignedRectangle,
    ws: Seq<i64>,
    ratio: Ratio,
    bous: bool,
) -> Seq<AxisAlignedRectangle> {
    vertical_division(
        crate::axis_aligned_rectangle::spec_rotate_aar(r),
        ws,
        Ratio { num: ratio.den, den: ratio.num },
        bous,
    ).map_values(|p: AxisAlignedRectangle| crate::axis_aligned_rectangle::spec_rotate_aar(p))
}

impl AxisAlignedRectangle {
    /// Divide the rectangle into one piece per weight, horizontal-major:
    /// rotate a quarter turn, run the vertical-major division with the
    /// reciprocal target ratio, and rotate every piece back, so the two
    /// major orientations are exact mirrors of one another.
    pub fn divide_horizontal_then_vertical_with_weights(
        &self,
        weights: &Vec<i64>,
        aspect_ratio: Ratio,
        boustrophedon: bool,
    ) -> (r: Vec<AxisAlignedRectangle>)
        requires
            self.wf(),
            self.rectangle.width >= 1,
            self.rectangle.height >= 1,
            aspect_ratio.wf(),
            weights_ok(weights@),
        ensures
            r@ == horizontal_division(*self, weights@, aspect_ratio, boustrophedon),
            r@.len() == weights@.len(),
    {
        // rotate, divide vertical, rotate back again means divide horizontal
        let rotated = self.rotate_clockwise();
        let rotated_aspect_ratio = aspect_ratio.reciprocal();
        let divided = rotated.divide_vertical_then_horizontal_with_weights(
            weights,
            rotated_aspect_ratio,
            boustrophedon,
        );
        let mut out: Vec<AxisAlignedRectangle> = Vec::new();
        let mut i: usize = 0;
        while i < divided.len()
            invariant
                0 <= i <= divided@.len(),
                out@.len() == i,
                forall|k: int| 0 <= k < i ==> #[trigger] out@[k]
                    == crate::axis_aligned_rectangle::spec_rotate_aar(divided@[k]),
            decreases divided@.len() - i,
        {
            out.push(divided[i].rotate_counter_clockwise());
            i = i + 1;
        }
        proof {
            assert(out@ =~= horizontal_division(
                *self, weights@, aspect_ratio, boustrophedon));
        }
        out
    }
}

/// A rectangle extent placed at the origin.
pub open spec fn at_origin(rc: Rectangle) -> AxisAlignedRectangle {
    AxisAlignedRectangle { point: Point { x: 0, y: 0 }, rectangle: rc }
}

/// The extents of a list of placed rectangles.
pub open spec fn extents_of(rs: Seq<AxisAlignedRectangle>) -> Seq<Rectangle> {
    rs.map_values(|p: AxisAlignedRectangle| p.rectangle)
}

/// Drop the origins from a list of placed rectangles.
fn rects_of(v: &Vec<AxisAlignedRectangle>) -> (r: Vec<Rectangle>)
    ensures
        r@ == extents_of(v@),
{
    let mut r: Vec<Rectangle> = Vec::new();
    let mut i: usize = 0;
    while i < v.len()
        invariant
            0 <= i <= v@.len(),
            r@.len() == i,
            forall|k: int| 0 <= k < i ==> #[trigger] r@[k] == v@[k].rectangle,
        decreases v@.len() - i,
    {
        r.push(v[i].rect());
        i = i + 1;
    }
    proof {
        assert(r@ =~= extents_of(v@));
    }
    r
}

impl Rectangle {
    /// dividing a rectangle into specified number of rectangles specified by axis
    ///
    /// The unpositioned division: the extents of dividing the rectangle
    /// placed at the origin.
    pub fn divide_by_values_and_axis(&self, values: &Vec<i64>, axis: Axis)
        -> (r: Vec<Rectangle>)
        requires
            self.wf(),
            forall|k: int| 0 <= k < values@.len() ==> 0 <= #[trigger] values@[k],
            seq_sum(values@) <= spec_size_along(at_origin(*self), axis),
        ensures
            r@ == extents_of(pieces_by_values(at_origin(*self), values@, axis)),
            r@.len() == values@.len() + 1,
    {
        let placed = AxisAlignedRectangle::new(&Point::new(0, 0), self);
        let divided = placed.divide_by_values_and_axis(values, axis);
        rects_of(&divided)
    }

    /// dividing a rectangle into specified weights of rectangles specified by axis
    pub fn divide_by_weights_and_axis(&self, weights: &Vec<i64>, axis: Axis)
        -> (r: Vec<Rectangle>)
        requires
            self.wf(),
            weights_ok(weights@),
        ensures
            r@ == extents_of(pieces_by_weights(at_origin(*self), weights@, axis)),
            r@.len() == weights@.len(),
    {
        let placed = AxisAlignedRectangle::new(&Point::new(0, 0), self);
        let divided = placed.divide_by_weights_and_axis(weights, axis);
        rects_of(&divided)
    }

    /// Divide the rectangle into one extent per weight, vertical-major: the
    /// extents of the positioned division of the rectangle placed at the
    /// origin.
    pub fn divide_vertical_then_horizontal_with_weights(
        &self,
        weights: &Vec<i64>,
        aspect_ratio: Ratio,
        boustrophedon: bool,
    ) -> (r: Vec<Rectangle>)
        requires
            self.wf(),
            self.width >= 1,
            self.height >= 1,
            aspect_ratio.wf(),
            weights_ok(weights@),
        ensures
            r@ == extents_of(vertical_division(
                at_origin(*self), weights@, aspect_ratio, boustrophedon)),
            r@.len() == weights@.len(),
    {
        let placed = AxisAlignedRectangle::new(&Point::new(0, 0), self);
        let divided = placed.divide_vertical_then_horizontal_with_weights(
            weights, aspect_ratio, boustrophedon);
        rects_of(&divided)
    }

    /// Divide the rectangle into one extent per weight, horizontal-major.
    pub fn divide_horizontal_then_vertical_with_weights(
        &self,
        weights: &Vec<i64>,
        aspect_ratio: Ratio,
        boustrophedon: bool,
    ) -> (r: Vec<Rectangle>)
        requires
            self.wf(),
            self.width >= 1,
            self.height >= 1,
            aspect_ratio.wf(),
            weights_ok(weights@),
        ensures
            r@ == extents_of(horizontal_division(
                at_origin(*self), weights@, aspect_ratio, boustrophedon)),
            r@.len() == weights@.len(),
    {
        let placed = AxisAlignedRectangle::new(&Point::new(0, 0), self);
        let divided = placed.divide_horizontal_then_vertical_with_weights(
            weights, aspect_ratio, boustrophedon);
        rects_of(&divided)
    }
}

/// Dividing a well-formed rectangle by positive weights yields only
/// well-formed pieces, each enclosed in the original.
pub proof fn lemma_pieces_by_weights_wf(r: AxisAlignedRectangle, ws: Seq<i64>, axis: Axis)
    requires
        r.wf(),
        all_pos(ws),
    ensures
        forall|j: int| 0 <= j < ws.len() ==> {
            &&& (#[trigger] pieces_by_weights(r, ws, axis)[j]).wf()
            &&& spec_encloses(r, pieces_by_weights(r, ws, axis)[j])
        },
{
    let s = spec_size_along(r, axis);
    assert forall|j: int| 0 <= j < ws.len() implies {
        &&& (#[trigger] pieces_by_weights(r, ws, axis)[j]).wf()
        &&& spec_encloses(r, pieces_by_weights(r, ws, axis)[j])
    } by {
        lemma_piece_bounds(ws, s, j);
        let off = piece_off(ws, s, j);
        let ext = piece_ext(ws, s, j);
        match axis {
            Axis::Vertical => {
                assert((r.point.x + off) as i64 == r.point.x + off);
                assert(ext as i64 == ext);
            }
            Axis::Horizontal => {
                assert((r.point.y + off) as i64 == r.point.y + off);
                assert(ext as i64 == ext);
            }
        }
    }
}

} // verus!
