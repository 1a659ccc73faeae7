//! Weights, their sums, and the integer offsets a weight list induces on an
//! extent.
//!
//! A weight list `w_0 … w_{n-1}` with total `W` divides an extent `s` into
//! `n` pieces: piece `j < n-1` gets `(w_j * s) / W` (floor division) and the
//! last piece gets the remainder, so the piece extents always sum to `s`
//! exactly and each piece's share differs from the exact rational share by
//! less than one unit per weight.

use vstd::prelude::*;

use crate::ratio::Ratio;

verus! {

/// Largest total a weight list may sum to.
///
/// The grouping engine multiplies a weight sum with extents and with another
/// weight sum; this cap keeps every such product inside `i128`.
pub const MAX_WEIGHT_SUM: i64 = 1_000_000_000_000;

/// The sum of a sequence of weights.
pub open spec fn seq_sum(ws: Seq<i64>) -> int
    decreases ws.len(),
{
    if ws.len() == 0 {
        0
    } else {
        seq_sum(ws.drop_last()) + ws.last()
    }
}

/// Every weight is positive.
pub open spec fn all_pos(ws: Seq<i64>) -> bool {
    forall|i: int| 0 <= i < ws.len() ==> 1 <= #[trigger] ws[i]
}

/// A weight list the dividing engine accepts: positive weights with a
/// bounded total.
pub open spec fn weights_ok(ws: Seq<i64>) -> bool {
    &&& all_pos(ws)
    &&& seq_sum(ws) <= MAX_WEIGHT_SUM
}

/// Peeling the first element off a sum.
pub proof fn lemma_seq_sum_head(ws: Seq<i64>)
    requires
        ws.len() > 0,
    ensures
        seq_sum(ws) == ws[0] + seq_sum(ws.drop_first()),
    decreases ws.len(),
{
    if ws.len() == 1 {
        assert(ws.drop_first() =~= Seq::empty());
        assert(ws.drop_last() =~= Seq::empty());
    } else {
        lemma_seq_sum_head(ws.drop_last());
        assert(ws.drop_last().drop_first() =~= ws.drop_first().drop_last());
        assert(ws.drop_first().last() == ws.last());
        assert(seq_sum(ws.drop_first()) == seq_sum(ws.drop_first().drop_last())
            + ws.drop_first().last());
    }
}

/// Extending a prefix by one element adds that element to its sum.
pub proof fn lemma_seq_sum_take_succ(ws: Seq<i64>, i: int)
    requires
        0 <= i < ws.len(),
    ensures
        seq_sum(ws.take(i + 1)) == seq_sum(ws.take(i)) + ws[i],
{
    assert(ws.take(i + 1).drop_last() =~= ws.take(i));
}

/// A sum of non-negative weights is non-negative and prefix sums are
/// monotone: the sum of a prefix never exceeds the sum of a longer prefix.
pub proof fn lemma_seq_sum_take_mono(ws: Seq<i64>, i: int, j: int)
    requires
        0 <= i <= j <= ws.len(),
        forall|k: int| 0 <= k < ws.len() ==> 0 <= #[trigger] ws[k],
    ensures
        0 <= seq_sum(ws.take(i)) <= seq_sum(ws.take(j)),
    decreases j - i,
{
    lemma_seq_sum_take_nonneg(ws, i);
    if i < j {
        lemma_seq_sum_take_succ(ws, j - 1);
        lemma_seq_sum_take_mono(ws, i, j - 1);
    }
}

/// The sum of a prefix of non-negative weights is non-negative.
pub proof fn lemma_seq_sum_take_nonneg(ws: Seq<i64>, i: int)
    requires
        0 <= i <= ws.len(),
        forall|k: int| 0 <= k < ws.len() ==> 0 <= #[trigger] ws[k],
    ensures
        0 <= seq_sum(ws.take(i)),
    decreases i,
{
    if i == 0 {
        assert(ws.take(0) =~= Seq::empty());
    } else {
        lemma_seq_sum_take_succ(ws, i - 1);
        lemma_seq_sum_take_nonneg(ws, i - 1);
    }
}

/// The whole list is its own full prefix.
pub proof fn lemma_seq_sum_take_all(ws: Seq<i64>)
    ensures
        seq_sum(ws.take(ws.len() as int)) == seq_sum(ws),
{
    assert(ws.take(ws.len() as int) =~= ws);
}

/// A sum of positive weights is at least the length of the list.
pub proof fn lemma_seq_sum_all_pos(ws: Seq<i64>)
    requires
        all_pos(ws),
    ensures
        seq_sum(ws) >= ws.len(),
    decreases ws.len(),
{
    if ws.len() > 0 {
        lemma_seq_sum_all_pos(ws.drop_last());
    }
}

/// Reversing a weight list does not change its sum.
pub proof fn lemma_seq_sum_reverse(ws: Seq<i64>)
    ensures
        seq_sum(ws.reverse()) == seq_sum(ws),
    decreases ws.len(),
{
    if ws.len() > 0 {
        assert(ws.reverse().drop_last() =~= ws.drop_first().reverse());
        assert(ws.reverse().last() == ws[0]);
        lemma_seq_sum_reverse(ws.drop_first());
        lemma_seq_sum_head(ws);
    }
}

/// The sum of a concatenation is the sum of the sums.
pub proof fn lemma_seq_sum_concat(a: Seq<i64>, b: Seq<i64>)
    ensures
        seq_sum(a + b) == seq_sum(a) + seq_sum(b),
    decreases b.len(),
{
    if b.len() == 0 {
        assert(a + b =~= a);
    } else {
        assert((a + b).drop_last() =~= a + b.drop_last());
        lemma_seq_sum_concat(a, b.drop_last());
    }
}

/// No single non-negative weight exceeds the total.
pub proof fn lemma_seq_sum_elem_le(ws: Seq<i64>, j: int)
    requires
        0 <= j < ws.len(),
        forall|k: int| 0 <= k < ws.len() ==> 0 <= #[trigger] ws[k],
    ensures
        ws[j] <= seq_sum(ws),
{
    lemma_seq_sum_take_succ(ws, j);
    lemma_seq_sum_take_nonneg(ws, j);
    lemma_seq_sum_take_mono(ws, j + 1, ws.len() as int);
    lemma_seq_sum_take_all(ws);
}

/// The exact integer share of extent `s` that weight `j` of the list gets:
/// `(w_j * s) / W` rounded towards zero (all quantities non-negative).
pub open spec fn scaled_at(ws: Seq<i64>, s: i64, j: int) -> int {
    (ws[j] * s) / seq_sum(ws)
}

/// The total share of the first `j` weights: where piece `j` starts.
pub open spec fn scaled_prefix(ws: Seq<i64>, s: i64, j: int) -> int
    decreases j,
{
    if j <= 0 {
        0
    } else {
        scaled_prefix(ws, s, j - 1) + scaled_at(ws, s, j - 1)
    }
}

/// The offset, from the start of the extent, of the piece for weight `j`.
pub open spec fn piece_off(ws: Seq<i64>, s: i64, j: int) -> int {
    scaled_prefix(ws, s, j)
}

/// The extent of the piece for weight `j`: its exact share, except that the
/// last piece takes all that remains, so the pieces sum to `s` exactly.
pub open spec fn piece_ext(ws: Seq<i64>, s: i64, j: int) -> int {
    if j == ws.len() - 1 {
        s - scaled_prefix(ws, s, j)
    } else {
        scaled_at(ws, s, j)
    }
}

/// A weight's share lies between `0` and `s`, and its floor rounding loses
/// less than one `W`-th of the extent.
pub proof fn lemma_scaled_at_bounds(ws: Seq<i64>, s: i64, j: int)
    requires
        all_pos(ws),
        0 <= j < ws.len(),
        0 <= s,
    ensures
        0 <= scaled_at(ws, s, j) <= s,
        scaled_at(ws, s, j) * seq_sum(ws) <= ws[j] * s,
        ws[j] * s < scaled_at(ws, s, j) * seq_sum(ws) + seq_sum(ws),
{
    let w = ws[j] as int;
    let big = seq_sum(ws);
    lemma_seq_sum_all_pos(ws);
    lemma_seq_sum_elem_le(ws, j);
    vstd::arithmetic::mul::lemma_mul_nonnegative(w, s as int);
    vstd::arithmetic::mul::lemma_mul_inequality(w, big, s as int);
    vstd::arithmetic::div_mod::lemma_div_pos_is_pos(w * s, big);
    vstd::arithmetic::div_mod::lemma_div_is_ordered(w * s, big * s, big);
    vstd::arithmetic::div_mod::lemma_div_multiples_vanish(s as int, big);
    vstd::arithmetic::div_mod::lemma_fundamental_div_mod(w * s, big);
    vstd::arithmetic::div_mod::lemma_mod_division_less_than_divisor(w * s, big);
    let q = (w * s) / big;
    assert(scaled_at(ws, s, j) == q);
    assert(q * big == big * q) by (nonlinear_arith);
    assert(w * s == big * q + (w * s) % big);
}

/// Offsets are non-negative, grow with the index, track the exact rational
/// shares to within one `W`-th per weight, and never pass the extent.
pub proof fn lemma_scaled_prefix_props(ws: Seq<i64>, s: i64, k: int)
    requires
        all_pos(ws),
        0 <= k <= ws.len(),
        0 <= s,
    ensures
        0 <= scaled_prefix(ws, s, k) <= s,
        scaled_prefix(ws, s, k) * seq_sum(ws) <= seq_sum(ws.take(k)) * s,
        seq_sum(ws.take(k)) * s - k * seq_sum(ws) <= scaled_prefix(ws, s, k) * seq_sum(ws),
    decreases k,
{
    let big = seq_sum(ws);
    lemma_seq_sum_all_pos(ws);
    if k == 0 {
        assert(ws.take(0) =~= Seq::empty());
    } else {
        lemma_scaled_prefix_props(ws, s, k - 1);
        lemma_scaled_at_bounds(ws, s, k - 1);
        lemma_seq_sum_take_succ(ws, k - 1);
        let p1 = scaled_prefix(ws, s, k - 1);
        let a = scaled_at(ws, s, k - 1);
        assert((p1 + a) * big == p1 * big + a * big) by (nonlinear_arith);
        assert(k * big == (k - 1) * big + big) by (nonlinear_arith);
        assert(seq_sum(ws.take(k)) * s == seq_sum(ws.take(k - 1)) * s + ws[k - 1] * s)
            by (nonlinear_arith)
            requires
                seq_sum(ws.take(k)) == seq_sum(ws.take(k - 1)) + ws[k - 1],
        ;
        // the offset stays within the extent
        lemma_seq_sum_take_mono(ws, k, ws.len() as int);
        lemma_seq_sum_take_all(ws);
        vstd::arithmetic::mul::lemma_mul_inequality(seq_sum(ws.take(k)), big, s as int);
        assert(scaled_prefix(ws, s, k) <= s) by (nonlinear_arith)
            requires
                scaled_prefix(ws, s, k) * big <= big * s,
                big >= 1,
        ;
    }
}

/// Offsets are monotone in the index.
pub proof fn lemma_scaled_prefix_mono(ws: Seq<i64>, s: i64, i: int, j: int)
    requires
        all_pos(ws),
        0 <= i <= j <= ws.len(),
        0 <= s,
    ensures
        scaled_prefix(ws, s, i) <= scaled_prefix(ws, s, j),
    decreases j - i,
{
    if i < j {
        lemma_scaled_at_bounds(ws, s, j - 1);
        lemma_scaled_prefix_mono(ws, s, i, j - 1);
    }
}

/// Each piece lies inside the extent: it starts at or after `0`, ends at or
/// before `s`, and pieces with larger indices start where earlier pieces
/// have ended or later.
pub proof fn lemma_piece_bounds(ws: Seq<i64>, s: i64, j: int)
    requires
        all_pos(ws),
        0 <= j < ws.len(),
        0 <= s,
    ensures
        0 <= piece_off(ws, s, j),
        0 <= piece_ext(ws, s, j),
        piece_off(ws, s, j) + piece_ext(ws, s, j) <= s,
        j < ws.len() - 1 ==> piece_off(ws, s, j) + piece_ext(ws, s, j)
            == scaled_prefix(ws, s, j + 1),
        j == ws.len() - 1 ==> piece_off(ws, s, j) + piece_ext(ws, s, j) == s,
{
    lemma_scaled_prefix_props(ws, s, j);
    if j < ws.len() - 1 {
        lemma_scaled_at_bounds(ws, s, j);
        lemma_scaled_prefix_props(ws, s, j + 1);
    } else {
        lemma_scaled_prefix_props(ws, s, ws.len() - 1);
    }
}

/// Pieces are stacked: a piece with a larger index starts at or after the
/// end of a piece with a smaller index.
pub proof fn lemma_piece_stacked(ws: Seq<i64>, s: i64, i: int, j: int)
    requires
        all_pos(ws),
        0 <= i < j < ws.len(),
        0 <= s,
    ensures
        piece_off(ws, s, i) + piece_ext(ws, s, i) <= piece_off(ws, s, j),
{
    lemma_piece_bounds(ws, s, i);
    lemma_scaled_prefix_mono(ws, s, i + 1, j);
}

/// The piece extents for a weight list sum to the whole extent: what the
/// floor divisions round away, the last piece takes.
pub open spec fn piece_ext_sum(ws: Seq<i64>, s: i64, k: int) -> int
    decreases k,
{
    if k <= 0 {
        0
    } else {
        piece_ext_sum(ws, s, k - 1) + piece_ext(ws, s, k - 1)
    }
}

/// Up to the last piece, the piece extents sum to the matching offset.
pub proof fn lemma_piece_ext_sum_prefix(ws: Seq<i64>, s: i64, k: int)
    requires
        0 <= k <= ws.len() - 1,
    ensures
        piece_ext_sum(ws, s, k) == scaled_prefix(ws, s, k),
    decreases k,
{
    if k > 0 {
        lemma_piece_ext_sum_prefix(ws, s, k - 1);
    }
}

/// All piece extents together cover the extent exactly.
pub proof fn lemma_piece_ext_sum_total(ws: Seq<i64>, s: i64)
    requires
        ws.len() >= 1,
    ensures
        piece_ext_sum(ws, s, ws.len() as int) == s,
{
    lemma_piece_ext_sum_prefix(ws, s, ws.len() - 1);
}

/// How close a piece's extent is to its exact rational share: up to the
/// last piece the floor loses less than one `W`-th of the extent, and the
/// last piece collects at most one `W`-th per earlier weight.
pub proof fn lemma_piece_proportional(ws: Seq<i64>, s: i64, j: int)
    requires
        all_pos(ws),
        0 <= j < ws.len(),
        0 <= s,
    ensures
        j < ws.len() - 1 ==> {
            &&& piece_ext(ws, s, j) * seq_sum(ws) <= ws[j] * s
            &&& ws[j] * s < piece_ext(ws, s, j) * seq_sum(ws) + seq_sum(ws)
        },
        j == ws.len() - 1 ==> {
            &&& ws[j] * s <= piece_ext(ws, s, j) * seq_sum(ws)
            &&& piece_ext(ws, s, j) * seq_sum(ws) <= ws[j] * s + (ws.len() - 1) * seq_sum(ws)
        },
{
    let big = seq_sum(ws);
    lemma_seq_sum_all_pos(ws);
    if j < ws.len() - 1 {
        lemma_scaled_at_bounds(ws, s, j);
    } else {
        let last = ws.len() - 1;
        lemma_scaled_prefix_props(ws, s, last);
        lemma_seq_sum_take_succ(ws, last);
        lemma_seq_sum_take_all(ws);
        assert(seq_sum(ws.take(last)) == big - ws[last]);
        assert(piece_ext(ws, s, last) == s - scaled_prefix(ws, s, last));
        assert((s - scaled_prefix(ws, s, last)) * big == s * big - scaled_prefix(ws, s, last) * big)
            by (nonlinear_arith);
        assert((big - ws[last]) * s == big * s - ws[last] * s) by (nonlinear_arith);
    }
}

/// A list holding each weight's integer share has the matching offsets as
/// its prefix sums.
pub proof fn lemma_scaled_values_prefix(ws: Seq<i64>, s: i64, vals: Seq<i64>, k: int)
    requires
        forall|j: int| 0 <= j < vals.len() ==> #[trigger] vals[j] == scaled_at(ws, s, j),
        0 <= k <= vals.len(),
    ensures
        seq_sum(vals.take(k)) == scaled_prefix(ws, s, k),
    decreases k,
{
    if k == 0 {
        assert(vals.take(0) =~= Seq::empty());
    } else {
        lemma_seq_sum_take_succ(vals, k - 1);
        lemma_scaled_values_prefix(ws, s, vals, k - 1);
    }
}

/// Sum the weights of a list.
pub fn sum_of_weights(ws: &Vec<i64>) -> (t: i64)
    requires
        forall|k: int| 0 <= k < ws@.len() ==> 0 <= #[trigger] ws@[k],
        seq_sum(ws@) <= MAX_WEIGHT_SUM,
    ensures
        t == seq_sum(ws@),
{
    let mut t: i64 = 0;
    let mut i: usize = 0;
    while i < ws.len()
        invariant
            0 <= i <= ws@.len(),
            forall|k: int| 0 <= k < ws@.len() ==> 0 <= #[trigger] ws@[k],
            seq_sum(ws@) <= MAX_WEIGHT_SUM,
            t == seq_sum(ws@.take(i as int)),
        decreases ws@.len() - i,
    {
        proof {
            lemma_seq_sum_take_succ(ws@, i as int);
            lemma_seq_sum_take_mono(ws@, i + 1 as int, ws@.len() as int);
            lemma_seq_sum_take_all(ws@);
        }
        t = t + ws[i];
        i = i + 1;
    }
    proof {
        lemma_seq_sum_take_all(ws@);
    }
    t
}

/// Normalize a weight list into a distribution that sums to one: each
/// element becomes the exact rational `weight / total`. The numerators sum
/// to the common denominator, so the results sum to exactly one.
pub fn normalize_weights(ws: &Vec<i64>) -> (r: Vec<Ratio>)
    requires
        ws@.len() >= 1,
        all_pos(ws@),
        seq_sum(ws@) <= MAX_WEIGHT_SUM,
    ensures
        r@.len() == ws@.len(),
        forall|i: int| 0 <= i < ws@.len() ==> {
            &&& (#[trigger] r@[i]).num == ws@[i]
            &&& r@[i].den == seq_sum(ws@)
        },
{
    let total = sum_of_weights(ws);
    let mut r: Vec<Ratio> = Vec::new();
    let mut i: usize = 0;
    while i < ws.len()
        invariant
            0 <= i <= ws@.len(),
            total == seq_sum(ws@),
            r@.len() == i,
            forall|k: int| 0 <= k < i ==> {
                &&& (#[trigger] r@[k]).num == ws@[k]
                &&& r@[k].den == seq_sum(ws@)
            },
        decreases ws@.len() - i,
    {
        r.push(Ratio::new(ws[i], total));
        i = i + 1;
    }
    r
}

} // verus!
