//! The midpoint circle algorithm: the steps through one octant, and the
//! points and chords that each step gives by symmetry.

use vstd::prelude::*;

verus! {

/// The y offset after the step that stood at `y0` with decision `d`.
pub open spec fn next_y(y0: int, d: int) -> int {
    if d > 0 {
        y0 - 1
    } else {
        y0
    }
}

/// The decision after the step that stood at `(x0, y0)` with decision `d`.
pub open spec fn next_decision(x0: int, y0: int, d: int) -> int {
    if d > 0 {
        d + 4 * ((x0 + 1) - (y0 - 1)) + 10
    } else {
        d + 4 * (x0 + 1) + 6
    }
}

/// The eight points that lie `(a, b)` from the centre `(cx, cy)` up to
/// signs and up to swapping the axes.
pub open spec fn mirrored(cx: int, cy: int, a: int, b: int) -> Seq<(int, int)> {
    seq![
        (cx + a, cy + b),
        (cx - a, cy + b),
        (cx + a, cy - b),
        (cx - a, cy - b),
        (cx + b, cy + a),
        (cx - b, cy + a),
        (cx + b, cy - a),
        (cx - b, cy - a),
    ]
}

/// The four horizontal chords through the points of `mirrored`, each as
/// `(left, y, right, y)`, from the lowest to the highest.
pub open spec fn chords(cx: int, cy: int, a: int, b: int) -> Seq<(int, int, int, int)> {
    seq![
        (cx - a, cy - b, cx + a, cy - b),
        (cx - b, cy - a, cx + b, cy - a),
        (cx - b, cy + a, cx + b, cy + a),
        (cx - a, cy + b, cx + a, cy + b),
    ]
}

/// The points of the circle from the step at `(x0, y0)` with decision `d`
/// on: eight for each step, as long as `y0 >= x0`.
pub open spec fn octant_points(cx: int, cy: int, x0: int, y0: int, d: int) -> Seq<(int, int)>
    decreases y0 - x0 + 2,
{
    if y0 < x0 {
        Seq::empty()
    } else {
        mirrored(cx, cy, x0, y0).add(
            octant_points(cx, cy, x0 + 1, next_y(y0, d), next_decision(x0, y0, d)),
        )
    }
}

/// The chords of the disc from the step at `(x0, y0)` with decision `d` on:
/// four for each step, as long as `y0 >= x0`.
pub open spec fn octant_chords(cx: int, cy: int, x0: int, y0: int, d: int) -> Seq<
    (int, int, int, int),
>
    decreases y0 - x0 + 2,
{
    if y0 < x0 {
        Seq::empty()
    } else {
        chords(cx, cy, x0, y0).add(
            octant_chords(cx, cy, x0 + 1, next_y(y0, d), next_decision(x0, y0, d)),
        )
    }
}

/// The points plotted for the circle about `(cx, cy)`: the steps start at
/// offset `(0, radius)` with decision `3 - 2 * radius`. A negative radius
/// gives no point, radius 0 the centre eight times.
pub open spec fn circle_points(cx: int, cy: int, radius: int) -> Seq<(int, int)> {
    octant_points(cx, cy, 0, radius, 3 - 2 * radius)
}

/// The chords drawn for the disc about `(cx, cy)`.
pub open spec fn disc_chords(cx: int, cy: int, radius: int) -> Seq<(int, int, int, int)> {
    octant_chords(cx, cy, 0, radius, 3 - 2 * radius)
}

/// The point `p` turned by a quarter of a full turn about `(cx, cy)`.
pub open spec fn quarter_turn(cx: int, cy: int, p: (int, int)) -> (int, int) {
    (cx - (p.1 - cy), cy + (p.0 - cx))
}

/// A point is among the eight mirrored ones exactly if it lies `(a, b)`
/// from the centre up to signs and up to swapping the axes.
pub proof fn lemma_mirrored_contains(cx: int, cy: int, a: int, b: int, p: (int, int))
    ensures
        mirrored(cx, cy, a, b).contains(p) <==> {
            ||| p == (cx + a, cy + b)
            ||| p == (cx - a, cy + b)
            ||| p == (cx + a, cy - b)
            ||| p == (cx - a, cy - b)
            ||| p == (cx + b, cy + a)
            ||| p == (cx - b, cy + a)
            ||| p == (cx + b, cy - a)
            ||| p == (cx - b, cy - a)
        },
{
    let m = mirrored(cx, cy, a, b);
    assert(m.len() == 8);
    assert(m[0] == (cx + a, cy + b));
    assert(m[1] == (cx - a, cy + b));
    assert(m[2] == (cx + a, cy - b));
    assert(m[3] == (cx - a, cy - b));
    assert(m[4] == (cx + b, cy + a));
    assert(m[5] == (cx - b, cy + a));
    assert(m[6] == (cx + b, cy - a));
    assert(m[7] == (cx - b, cy - a));
}

/// A point is in a sequence put together from two exactly if it is in one
/// of the two.
pub proof fn lemma_add_contains<A>(first: Seq<A>, rest: Seq<A>, p: A)
    ensures
        first.add(rest).contains(p) <==> first.contains(p) || rest.contains(p),
{
    let all = first.add(rest);
    if first.contains(p) {
        let i = choose|i: int| 0 <= i < first.len() && first[i] == p;
        assert(all[i] == p);
    }
    if rest.contains(p) {
        let i = choose|i: int| 0 <= i < rest.len() && rest[i] == p;
        assert(all[first.len() + i] == p);
    }
    if all.contains(p) {
        let i = choose|i: int| 0 <= i < all.len() && all[i] == p;
        if i < first.len() {
            assert(first[i] == p);
        } else {
            assert(rest[i - first.len()] == p);
        }
    }
}

/// The points of the circle from any step on are the same after a quarter
/// turn about the centre.
pub proof fn lemma_octant_points_quarter_turn(
    cx: int,
    cy: int,
    x0: int,
    y0: int,
    d: int,
    p: (int, int),
)
    ensures
        octant_points(cx, cy, x0, y0, d).contains(p) <==> octant_points(
            cx,
            cy,
            x0,
            y0,
            d,
        ).contains(quarter_turn(cx, cy, p)),
    decreases y0 - x0 + 2,
{
    if y0 >= x0 {
        let q = quarter_turn(cx, cy, p);
        let first = mirrored(cx, cy, x0, y0);
        let rest = octant_points(cx, cy, x0 + 1, next_y(y0, d), next_decision(x0, y0, d));
        lemma_octant_points_quarter_turn(
            cx,
            cy,
            x0 + 1,
            next_y(y0, d),
            next_decision(x0, y0, d),
            p,
        );
        lemma_add_contains(first, rest, p);
        lemma_add_contains(first, rest, q);
        lemma_mirrored_contains(cx, cy, x0, y0, p);
        lemma_mirrored_contains(cx, cy, x0, y0, q);
    }
}

/// The outline of a circle is symmetric under a quarter turn about its
/// centre: a point is plotted exactly if the point a quarter turn on is.
pub proof fn lemma_circle_points_quarter_turn(cx: int, cy: int, radius: int, p: (int, int))
    ensures
        circle_points(cx, cy, radius).contains(p) <==> circle_points(cx, cy, radius).contains(
            quarter_turn(cx, cy, p),
        ),
{
    lemma_octant_points_quarter_turn(cx, cy, 0, radius, 3 - 2 * radius, p);
}

/// The point `p` lies on the horizontal chord `(left, y, right, y)`.
pub open spec fn on_chord(chord: (int, int, int, int), p: (int, int)) -> bool {
    p.1 == chord.1 && chord.0 <= p.0 <= chord.2
}

/// The point `p` lies on one of the chords.
pub open spec fn covered(chords: Seq<(int, int, int, int)>, p: (int, int)) -> bool {
    exists|i: int| 0 <= i < chords.len() && on_chord(#[trigger] chords[i], p)
}

/// The y offset and the decision with which the steps that start at
/// `(x0, y0)` with decision `d` come to the x offset `k`.
pub open spec fn step_at(x0: int, y0: int, d: int, k: int) -> (int, int)
    decreases k - x0,
{
    if k <= x0 {
        (y0, d)
    } else {
        step_at(x0 + 1, next_y(y0, d), next_decision(x0, y0, d), k)
    }
}

/// The distance of a coordinate from zero.
pub open spec fn magnitude(v: int) -> int {
    if v < 0 {
        -v
    } else {
        v
    }
}

/// A point `(u, v)` from the centre lies on one of the four chords of the
/// step at `(a, b)`: on the rows `b` above and below the centre within `a`
/// of it, or on the rows `a` above and below within `b`.
pub open spec fn on_step_chords(a: int, b: int, u: int, v: int) -> bool {
    (magnitude(v) == b && magnitude(u) <= a) || (magnitude(v) == a && magnitude(u) <= b)
}

/// From step to step the y offset stays or falls by one.
proof fn lemma_step_falls_slowly(x0: int, y0: int, d: int, j: int, k: int)
    requires
        x0 <= j <= k,
    ensures
        step_at(x0, y0, d, k).0 <= step_at(x0, y0, d, j).0 <= step_at(x0, y0, d, k).0 + (k - j),
    decreases k - x0,
{
    if k > x0 {
        let y1 = next_y(y0, d);
        let d1 = next_decision(x0, y0, d);
        if j == x0 {
            lemma_step_falls_slowly(x0 + 1, y1, d1, x0 + 1, k);
        } else {
            lemma_step_falls_slowly(x0 + 1, y1, d1, j, k);
        }
    }
}

/// Every value between the x offset and the y offset of a step is the x
/// offset or the y offset of a step that is still drawn.
proof fn lemma_step_reaches(x0: int, y0: int, d: int, value: int) -> (k: int)
    requires
        x0 <= value <= y0,
    ensures
        x0 <= k,
        step_at(x0, y0, d, k).0 >= k,
        k == value || step_at(x0, y0, d, k).0 == value,
    decreases y0 - x0,
{
    if value == x0 || value == y0 {
        x0
    } else {
        lemma_step_reaches(x0 + 1, next_y(y0, d), next_decision(x0, y0, d), value)
    }
}

/// A point lies on a chord of the steps from `(x0, y0)` on exactly if it
/// lies on a chord of one step that is still drawn.
proof fn lemma_covered_by_a_step(cx: int, cy: int, x0: int, y0: int, d: int, p: (int, int))
    requires
        0 <= x0,
    ensures
        covered(octant_chords(cx, cy, x0, y0, d), p) <==> exists|k: int|
            x0 <= k && #[trigger] step_at(x0, y0, d, k).0 >= k && on_step_chords(
                k,
                step_at(x0, y0, d, k).0,
                p.0 - cx,
                p.1 - cy,
            ),
    decreases y0 - x0 + 2,
{
    let all = octant_chords(cx, cy, x0, y0, d);
    let u = p.0 - cx;
    let v = p.1 - cy;
    if y0 < x0 {
        assert forall|k: int| x0 <= k implies !(#[trigger] step_at(x0, y0, d, k).0 >= k) by {
            lemma_step_falls_slowly(x0, y0, d, x0, k);
        }
    } else {
        let y1 = next_y(y0, d);
        let d1 = next_decision(x0, y0, d);
        let first = chords(cx, cy, x0, y0);
        let rest = octant_chords(cx, cy, x0 + 1, y1, d1);
        lemma_covered_by_a_step(cx, cy, x0 + 1, y1, d1, p);
        assert(first.len() == 4);
        assert(first[0] == (cx - x0, cy - y0, cx + x0, cy - y0));
        assert(first[1] == (cx - y0, cy - x0, cx + y0, cy - x0));
        assert(first[2] == (cx - y0, cy + x0, cx + y0, cy + x0));
        assert(first[3] == (cx - x0, cy + y0, cx + x0, cy + y0));
        assert(covered(first, p) <==> on_step_chords(x0, y0, u, v)) by {
            if on_step_chords(x0, y0, u, v) {
                if magnitude(v) == y0 && magnitude(u) <= x0 {
                    if v < 0 {
                        assert(on_chord(first[0], p));
                    } else {
                        assert(on_chord(first[3], p));
                    }
                } else {
                    if v < 0 {
                        assert(on_chord(first[1], p));
                    } else {
                        assert(on_chord(first[2], p));
                    }
                }
            }
        }
        assert(covered(all, p) <==> covered(first, p) || covered(rest, p)) by {
            if covered(first, p) {
                let i = choose|i: int| 0 <= i < first.len() && on_chord(#[trigger] first[i], p);
                assert(all[i] == first[i]);
            }
            if covered(rest, p) {
                let i = choose|i: int| 0 <= i < rest.len() && on_chord(#[trigger] rest[i], p);
                assert(all[4 + i] == rest[i]);
            }
            if covered(all, p) {
                let i = choose|i: int| 0 <= i < all.len() && on_chord(#[trigger] all[i], p);
                if i < 4 {
                    assert(first[i] == all[i]);
                } else {
                    assert(rest[i - 4] == all[i]);
                }
            }
        }
        let found = |k: int|
            x0 <= k && step_at(x0, y0, d, k).0 >= k && on_step_chords(
                k,
                step_at(x0, y0, d, k).0,
                u,
                v,
            );
        let found_later = |k: int|
            x0 + 1 <= k && step_at(x0 + 1, y1, d1, k).0 >= k && on_step_chords(
                k,
                step_at(x0 + 1, y1, d1, k).0,
                u,
                v,
            );
        if covered(all, p) {
            if covered(first, p) {
                assert(found(x0));
            } else {
                let k = choose|k: int|
                    x0 + 1 <= k && #[trigger] step_at(x0 + 1, y1, d1, k).0 >= k && on_step_chords(
                        k,
                        step_at(x0 + 1, y1, d1, k).0,
                        u,
                        v,
                    );
                assert(found(k));
            }
        }
        if exists|k: int|
            x0 <= k && #[trigger] step_at(x0, y0, d, k).0 >= k && on_step_chords(
                k,
                step_at(x0, y0, d, k).0,
                u,
                v,
            ) {
            let k = choose|k: int|
                x0 <= k && #[trigger] step_at(x0, y0, d, k).0 >= k && on_step_chords(
                    k,
                    step_at(x0, y0, d, k).0,
                    u,
                    v,
                );
            if k > x0 {
                assert(found_later(k));
            }
        }
    }
}

/// If a point that lies `(u, v)` from the centre is on a chord of the disc,
/// then so is one that lies `(v, u)` from it.
proof fn lemma_disc_swap(radius: int, u: int, v: int, k: int) -> (other: int)
    requires
        0 <= k,
        step_at(0, radius, 3 - 2 * radius, k).0 >= k,
        on_step_chords(k, step_at(0, radius, 3 - 2 * radius, k).0, u, v),
    ensures
        0 <= other,
        step_at(0, radius, 3 - 2 * radius, other).0 >= other,
        on_step_chords(other, step_at(0, radius, 3 - 2 * radius, other).0, v, u),
{
    let d = 3 - 2 * radius;
    let a = magnitude(u);
    let b = magnitude(v);
    let y = step_at(0, radius, d, k).0;
    lemma_step_falls_slowly(0, radius, d, 0, k);
    if a <= k {
        // The step at the x offset `a` is drawn, and is at least as high.
        lemma_step_falls_slowly(0, radius, d, a, k);
        a
    } else {
        // Here `b == k` and `k < a <= y`.
        let reached = lemma_step_reaches(0, radius, d, a);
        if reached == a {
            a
        } else if reached >= k {
            reached
        } else {
            lemma_step_falls_slowly(0, radius, d, reached, k);
            k
        }
    }
}

/// Every chord of the steps from `(x0, y0)` on is level, runs from left to
/// right, and stays within `reach` of the centre, where the steps start
/// within `reach`.
pub proof fn lemma_octant_chords_within(
    cx: int,
    cy: int,
    x0: int,
    y0: int,
    d: int,
    reach: int,
    i: int,
)
    requires
        0 <= x0,
        y0 <= reach,
        0 <= i < octant_chords(cx, cy, x0, y0, d).len(),
    ensures
        cx - reach <= octant_chords(cx, cy, x0, y0, d)[i].0 <= octant_chords(
            cx,
            cy,
            x0,
            y0,
            d,
        )[i].2 <= cx + reach,
        cy - reach <= octant_chords(cx, cy, x0, y0, d)[i].1 <= cy + reach,
        octant_chords(cx, cy, x0, y0, d)[i].1 == octant_chords(cx, cy, x0, y0, d)[i].3,
    decreases y0 - x0 + 2,
{
    if y0 >= x0 {
        let first = chords(cx, cy, x0, y0);
        assert(first.len() == 4);
        if i >= 4 {
            lemma_octant_chords_within(
                cx,
                cy,
                x0 + 1,
                next_y(y0, d),
                next_decision(x0, y0, d),
                reach,
                i - 4,
            );
        } else {
            assert(first[0] == (cx - x0, cy - y0, cx + x0, cy - y0));
            assert(first[1] == (cx - y0, cy - x0, cx + y0, cy - x0));
            assert(first[2] == (cx - y0, cy + x0, cx + y0, cy + x0));
            assert(first[3] == (cx - x0, cy + y0, cx + x0, cy + y0));
        }
    }
}

/// A disc is symmetric under a quarter turn about its centre: a point lies
/// on one of its chords exactly if the point a quarter turn on does.
pub proof fn lemma_disc_chords_quarter_turn(cx: int, cy: int, radius: int, p: (int, int))
    ensures
        covered(disc_chords(cx, cy, radius), p) <==> covered(
            disc_chords(cx, cy, radius),
            quarter_turn(cx, cy, p),
        ),
{
    let d = 3 - 2 * radius;
    let q = quarter_turn(cx, cy, p);
    lemma_covered_by_a_step(cx, cy, 0, radius, d, p);
    lemma_covered_by_a_step(cx, cy, 0, radius, d, q);
    if covered(disc_chords(cx, cy, radius), p) {
        let k = choose|k: int|
            0 <= k && #[trigger] step_at(0, radius, d, k).0 >= k && on_step_chords(
                k,
                step_at(0, radius, d, k).0,
                p.0 - cx,
                p.1 - cy,
            );
        let other = lemma_disc_swap(radius, p.0 - cx, p.1 - cy, k);
        assert(on_step_chords(other, step_at(0, radius, d, other).0, q.0 - cx, q.1 - cy));
    }
    if covered(disc_chords(cx, cy, radius), q) {
        let k = choose|k: int|
            0 <= k && #[trigger] step_at(0, radius, d, k).0 >= k && on_step_chords(
                k,
                step_at(0, radius, d, k).0,
                q.0 - cx,
                q.1 - cy,
            );
        let other = lemma_disc_swap(radius, q.0 - cx, q.1 - cy, k);
        assert(on_step_chords(other, step_at(0, radius, d, other).0, p.0 - cx, p.1 - cy));
    }
}

} // verus!
