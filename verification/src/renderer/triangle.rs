//! The geometry of the triangle fill: the corners in order of height, the
//! point that splits the long edge, and the scan rows between two edges.

use vstd::arithmetic::div_mod::{
    lemma_div_is_ordered, lemma_div_multiples_vanish, lemma_fundamental_div_mod,
    lemma_fundamental_div_mod_converse,
};
use vstd::prelude::*;

use crate::renderer::bresenham::{between, lemma_line_points, line_points, toward};

verus! {

/// The two corners with the lower one first; as they are where they are
/// level.
pub open spec fn lower_first(a: (int, int), b: (int, int)) -> ((int, int), (int, int)) {
    if b.1 < a.1 {
        (b, a)
    } else {
        (a, b)
    }
}

/// The three corners by ascending height, as three exchanges make them:
/// first and second, first and third, second and third.
pub open spec fn sort_by_y(v0: (int, int), v1: (int, int), v2: (int, int)) -> (
    (int, int),
    (int, int),
    (int, int),
) {
    let first = lower_first(v0, v1);
    let second = lower_first(first.0, v2);
    let third = lower_first(first.1, second.1);
    (second.0, third.0, third.1)
}

/// Where the edge from `(x0, y0)` to `(x2, y2)` passes the height `y1`:
/// `x0 + (y1 - y0) / (y2 - y0) * (x2 - x0)`, rounded down.
pub open spec fn split_x(x0: int, y0: int, y1: int, x2: int, y2: int) -> int {
    x0 + ((y1 - y0) * (x2 - x0)) / (y2 - y0)
}

/// A coordinate as the walkers take it: nothing below zero.
pub open spec fn saturate(v: int) -> int {
    if v < 0 {
        0
    } else {
        v
    }
}

/// The index of the first point of `points` at height `row` or above, and
/// the length of `points` where there is none.
pub open spec fn first_at_or_above(points: Seq<(int, int)>, row: int) -> int
    decreases points.len(),
{
    if points.len() == 0 {
        0
    } else if points[0].1 >= row {
        0
    } else {
        1 + first_at_or_above(points.skip(1), row)
    }
}

/// The point at which an edge enters the row `row`.
pub open spec fn row_entry(edge: Seq<(int, int)>, row: int) -> (int, int) {
    edge[first_at_or_above(edge, row)]
}

/// The spans of the rows from `row` up to, not including, `top`: for each
/// row the line from the point where `left` enters it to the point where
/// `right` does.
pub open spec fn scan_rows(left: Seq<(int, int)>, right: Seq<(int, int)>, row: int, top: int) -> Seq<
    (int, int, int, int),
>
    decreases top - row,
{
    if row >= top {
        Seq::empty()
    } else {
        seq![
            (
                row_entry(left, row).0,
                row_entry(left, row).1,
                row_entry(right, row).0,
                row_entry(right, row).1,
            ),
        ].add(scan_rows(left, right, row + 1, top))
    }
}

/// The spans between the edge from `(left_x, bottom)` to `(left_end, top)`
/// and the edge from `(right_x, bottom)` to `(right_end, top)`.
pub open spec fn spans_between(
    left_x: int,
    right_x: int,
    bottom: int,
    left_end: int,
    right_end: int,
    top: int,
) -> Seq<(int, int, int, int)> {
    scan_rows(
        line_points(left_x, bottom, left_end, top),
        line_points(right_x, bottom, right_end, top),
        bottom,
        top,
    )
}

/// An edge that starts on the row `bottom`, ends on the row `top`, and
/// from point to point stays on its row or climbs to the next.
pub open spec fn climbs(edge: Seq<(int, int)>, bottom: int, top: int) -> bool {
    &&& edge.len() >= 1
    &&& edge[0].1 == bottom
    &&& edge.last().1 == top
    &&& forall|i: int|
        #![trigger edge[i + 1]]
        0 <= i < edge.len() - 1 ==> edge[i + 1].1 == edge[i].1 || edge[i + 1].1 == edge[i].1 + 1
}

/// What `first_at_or_above` finds: every point before it lies below the
/// row, and the point at it, if there is one, does not.
pub proof fn lemma_first_at_or_above(points: Seq<(int, int)>, row: int)
    ensures
        0 <= first_at_or_above(points, row) <= points.len(),
        forall|i: int|
            0 <= i < first_at_or_above(points, row) ==> (#[trigger] points[i]).1 < row,
        first_at_or_above(points, row) < points.len() ==> points[first_at_or_above(
            points,
            row,
        )].1 >= row,
    decreases points.len(),
{
    if points.len() != 0 && points[0].1 < row {
        let rest = points.skip(1);
        lemma_first_at_or_above(rest, row);
        let k = first_at_or_above(rest, row);
        assert forall|i: int| 0 <= i < 1 + k implies (#[trigger] points[i]).1 < row by {
            if i > 0 {
                assert(points[i] == rest[i - 1]);
            }
        }
        if k < rest.len() {
            assert(points[1 + k] == rest[k]);
        }
    }
}

/// An index that no lower point comes before, and that holds none itself
/// unless it is the length, is the one that `first_at_or_above` finds.
pub proof fn lemma_first_at_or_above_unique(points: Seq<(int, int)>, row: int, j: int)
    requires
        0 <= j <= points.len(),
        forall|i: int| 0 <= i < j ==> (#[trigger] points[i]).1 < row,
        j < points.len() ==> points[j].1 >= row,
    ensures
        j == first_at_or_above(points, row),
{
    lemma_first_at_or_above(points, row);
    let k = first_at_or_above(points, row);
    if k < j {
        assert(points[k].1 < row);
    }
    if j < k {
        assert(points[j].1 < row);
    }
}

/// The line between two points, the first not above the second, climbs
/// from the row of the one to the row of the other.
pub proof fn lemma_line_climbs(x0: int, bottom: int, x1: int, top: int)
    requires
        bottom <= top,
    ensures
        climbs(line_points(x0, bottom, x1, top), bottom, top),
{
    lemma_line_points(x0, bottom, x1, top);
    let edge = line_points(x0, bottom, x1, top);
    assert forall|i: int| #![trigger edge[i + 1]] 0 <= i < edge.len() - 1 implies edge[i + 1].1
        == edge[i].1 || edge[i + 1].1 == edge[i].1 + 1 by {
        assert(between(bottom, edge[i].1, top));
        assert(edge[i + 1].1 == edge[i].1 || edge[i + 1].1 == toward(edge[i].1, top));
    }
}

/// A fill stands on the row `row` of an edge: `current` is the point
/// `edge[at]` at which the edge enters the row, and `rest` is what is left
/// of the edge after its first `taken` points, which are those up to
/// `current`, or, before the first step, none.
pub open spec fn tracks(
    edge: Seq<(int, int)>,
    rest: Seq<(int, int)>,
    current: (int, int),
    at: int,
    taken: int,
    row: int,
) -> bool {
    &&& 0 <= at < edge.len()
    &&& edge[at] == current
    &&& current.1 == row
    &&& at == first_at_or_above(edge, row)
    &&& at <= taken <= at + 1
    &&& taken <= edge.len()
    &&& rest == edge.skip(taken)
}

/// From a row below the top, the rest of the edge holds the point at which
/// the edge enters the next row, and with that point the fill stands on the
/// next row.
pub proof fn lemma_tracks_next(
    edge: Seq<(int, int)>,
    rest: Seq<(int, int)>,
    current: (int, int),
    at: int,
    taken: int,
    row: int,
    bottom: int,
    top: int,
)
    requires
        climbs(edge, bottom, top),
        tracks(edge, rest, current, at, taken, row),
        row < top,
    ensures
        first_at_or_above(rest, row + 1) < rest.len(),
        tracks(
            edge,
            rest.skip(first_at_or_above(rest, row + 1) + 1),
            rest[first_at_or_above(rest, row + 1)],
            taken + first_at_or_above(rest, row + 1),
            taken + first_at_or_above(rest, row + 1) + 1,
            row + 1,
        ),
{
    lemma_first_at_or_above(edge, row);
    lemma_first_at_or_above(rest, row + 1);
    let j = first_at_or_above(rest, row + 1);
    let last = edge.len() - 1;
    // The last point lies on the top row, so the rest of the edge holds it.
    assert(at < last);
    assert(rest[last - taken] == edge[last]);
    if j >= rest.len() {
        assert(rest[last - taken].1 < row + 1);
    }
    let next = taken + j;
    assert(rest[j] == edge[next]);
    assert forall|i: int| 0 <= i < next implies (#[trigger] edge[i]).1 < row + 1 by {
        if i >= taken {
            assert(edge[i] == rest[i - taken]);
        }
    }
    lemma_first_at_or_above_unique(edge, row + 1, next);
    // The edge climbs by one row at most, so the entry lies on the next row.
    assert(next >= 1);
    assert(edge[next - 1 + 1].1 == edge[next - 1].1 || edge[next - 1 + 1].1 == edge[next - 1].1
        + 1);
    assert(rest.skip(j + 1) =~= edge.skip(next + 1));
}

/// The split point never leaves the long edge: it lies between the two
/// ends of that edge.
pub proof fn lemma_split_between(x0: int, y0: int, y1: int, x2: int, y2: int)
    requires
        y0 <= y1 <= y2,
        y0 < y2,
    ensures
        between(x0, split_x(x0, y0, y1, x2, y2), x2),
{
    let rise = y1 - y0;
    let run = x2 - x0;
    let height = y2 - y0;
    if run >= 0 {
        assert(0 <= rise * run <= height * run) by (nonlinear_arith)
            requires
                0 <= rise <= height,
                0 <= run,
        ;
        lemma_div_is_ordered(0, rise * run, height);
        lemma_div_is_ordered(rise * run, height * run, height);
    } else {
        assert(height * run <= rise * run <= 0) by (nonlinear_arith)
            requires
                0 <= rise <= height,
                run < 0,
        ;
        lemma_div_is_ordered(rise * run, 0, height);
        lemma_div_is_ordered(height * run, rise * run, height);
    }
    lemma_div_multiples_vanish(run, height);
}

/// The split point of the long edge, computed.
pub(crate) fn split_at(x0: i64, y0: i64, y1: i64, x2: i64, y2: i64) -> (x3: i64)
    requires
        i32::MIN <= x0 <= i32::MAX,
        i32::MIN <= x2 <= i32::MAX,
        i32::MIN <= y0 <= y1 <= y2 <= i32::MAX,
        y0 < y2,
    ensures
        x3 == split_x(x0 as int, y0 as int, y1 as int, x2 as int, y2 as int),
        between(x0 as int, x3 as int, x2 as int),
{
    let rise: i128 = (y1 - y0) as i128;
    let run: i128 = (x2 - x0) as i128;
    let height: i128 = (y2 - y0) as i128;
    assert(-0x1_0000_0000 * 0x1_0000_0000 <= rise * run <= 0x1_0000_0000 * 0x1_0000_0000)
        by (nonlinear_arith)
        requires
            0 <= rise <= 0x1_0000_0000,
            -0x1_0000_0000 <= run <= 0x1_0000_0000,
    ;
    let product: i128 = rise * run;
    let quotient: i128 = if product >= 0 {
        product / height
    } else {
        let opposite: i128 = -product;
        let whole: i128 = opposite / height;
        let left_over: i128 = opposite % height;
        proof {
            lemma_fundamental_div_mod(opposite as int, height as int);
            lemma_div_is_ordered(0, opposite as int, height as int);
            assert(whole <= opposite && height * whole == whole * height) by (nonlinear_arith)
                requires
                    opposite == height * whole + left_over,
                    0 <= left_over,
                    0 <= whole,
                    1 <= height,
            ;
            if left_over == 0 {
                assert(product == (-whole) * height + 0) by (nonlinear_arith)
                    requires
                        -product == whole * height,
                ;
                lemma_fundamental_div_mod_converse(product as int, height as int, -whole, 0);
            } else {
                assert(product == (-whole - 1) * height + (height - left_over))
                    by (nonlinear_arith)
                    requires
                        -product == whole * height + left_over,
                ;
                lemma_fundamental_div_mod_converse(
                    product as int,
                    height as int,
                    -whole - 1,
                    height - left_over,
                );
            }
        }
        if left_over == 0 {
            -whole
        } else {
            -whole - 1
        }
    };
    proof {
        lemma_split_between(x0 as int, y0 as int, y1 as int, x2 as int, y2 as int);
    }
    (x0 as i128 + quotient) as i64
}

} // verus!
