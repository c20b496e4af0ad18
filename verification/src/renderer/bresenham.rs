//! Bresenham's line algorithm as a walker that hands out one lattice point
//! per call, from the start point to the end point.

use vstd::prelude::*;

verus! {

/// The distance between two coordinates.
pub open spec fn span(from: int, to: int) -> int {
    if from <= to {
        to - from
    } else {
        from - to
    }
}

/// One step from `from` in the direction of `to`.
pub open spec fn toward(from: int, to: int) -> int {
    if from < to {
        from + 1
    } else if from > to {
        from - 1
    } else {
        from
    }
}

/// The points that the walk emits from `(x, y)` on, the point `(x, y)`
/// included, on its way to `(x1, y1)`.
///
/// `dx` is the horizontal extent of the whole line and `dy` the negated
/// vertical extent; `e` is the error term at `(x, y)`. After a point is
/// emitted the walk ends if the point is the target. Otherwise it moves
/// along x when `2 * e >= dy` and along y when `2 * e < dx`, adding `dy` or
/// `dx` to the error for each axis it moves along; it ends instead of
/// moving along an axis on which it already is level with the target.
pub open spec fn walk(x: int, y: int, e: int, x1: int, y1: int, dx: int, dy: int) -> Seq<
    (int, int),
>
    decreases span(x, x1) + span(y, y1),
    when dy <= 0 <= dx
{
    let along_x = 2 * e >= dy;
    let along_y = 2 * e < dx;
    if (x == x1 && y == y1) || (along_x && x == x1) || (along_y && y == y1) {
        seq![(x, y)]
    } else {
        seq![(x, y)].add(
            walk(
                if along_x {
                    toward(x, x1)
                } else {
                    x
                },
                if along_y {
                    toward(y, y1)
                } else {
                    y
                },
                e + (if along_x {
                    dy
                } else {
                    0
                }) + (if along_y {
                    dx
                } else {
                    0
                }),
                x1,
                y1,
                dx,
                dy,
            ),
        )
    }
}

/// The lattice points of the line from `(x0, y0)` to `(x1, y1)`, in the
/// order in which they are drawn.
pub open spec fn line_points(x0: int, y0: int, x1: int, y1: int) -> Seq<(int, int)> {
    walk(x0, y0, span(x0, x1) - span(y0, y1), x1, y1, span(x0, x1), -span(y0, y1))
}

/// The error term is the one that belongs to the position: with `rx` and
/// `ry` the distances still to go, `e == dx + dy - dy * rx - dx * ry`.
pub open spec fn on_track(x: int, y: int, e: int, x1: int, y1: int, dx: int, dy: int) -> bool {
    &&& dy <= 0 <= dx
    &&& span(x, x1) <= dx
    &&& span(y, y1) <= -dy
    &&& e == dx + dy - dy * span(x, x1) - dx * span(y, y1)
}

/// `v` lies between `a` and `b`, whichever of the two is the smaller.
pub open spec fn between(a: int, v: int, b: int) -> bool {
    (a <= v <= b) || (b <= v <= a)
}

/// Each point of `p` is followed by one that is at most one step nearer to
/// `(x1, y1)` on each axis, and never by itself.
pub open spec fn unit_steps(p: Seq<(int, int)>, x1: int, y1: int) -> bool {
    forall|i: int|
        #![trigger p[i + 1]]
        0 <= i < p.len() - 1 ==> {
            &&& (p[i + 1].0 == p[i].0 || p[i + 1].0 == toward(p[i].0, x1))
            &&& (p[i + 1].1 == p[i].1 || p[i + 1].1 == toward(p[i].1, y1))
            &&& p[i + 1] != p[i]
        }
}

/// Every point of `p` lies in the box spanned by `(x, y)` and `(x1, y1)`.
pub open spec fn within_box(p: Seq<(int, int)>, x: int, y: int, x1: int, y1: int) -> bool {
    forall|i: int|
        #![trigger p[i]]
        0 <= i < p.len() ==> between(x, p[i].0, x1) && between(y, p[i].1, y1)
}

/// A walk whose error term belongs to its position ends only at the target.
proof fn lemma_stops_at_target(x: int, y: int, e: int, x1: int, y1: int, dx: int, dy: int)
    requires
        on_track(x, y, e, x1, y1, dx, dy),
        (2 * e >= dy && x == x1) || (2 * e < dx && y == y1),
    ensures
        x == x1 && y == y1,
{
    let rx = span(x, x1);
    let ry = span(y, y1);
    if x == x1 && y != y1 {
        assert(dx * ry >= dx) by (nonlinear_arith)
            requires
                dx >= 0,
                ry >= 1,
        ;
        assert(dy * rx == 0) by (nonlinear_arith)
            requires
                rx == 0,
        ;
    }
    if y == y1 && x != x1 {
        assert(dy * rx <= dy) by (nonlinear_arith)
            requires
                dy <= 0,
                rx >= 1,
        ;
        assert(dx * ry == 0) by (nonlinear_arith)
            requires
                ry == 0,
        ;
    }
}

/// A step of the walk keeps the error term in line with the position.
proof fn lemma_step_on_track(x: int, y: int, e: int, x1: int, y1: int, dx: int, dy: int)
    requires
        on_track(x, y, e, x1, y1, dx, dy),
        !(x == x1 && y == y1),
        !(2 * e >= dy && x == x1),
        !(2 * e < dx && y == y1),
    ensures
        on_track(
            if 2 * e >= dy {
                toward(x, x1)
            } else {
                x
            },
            if 2 * e < dx {
                toward(y, y1)
            } else {
                y
            },
            e + (if 2 * e >= dy {
                dy
            } else {
                0
            }) + (if 2 * e < dx {
                dx
            } else {
                0
            }),
            x1,
            y1,
            dx,
            dy,
        ),
{
    let rx = span(x, x1);
    let ry = span(y, y1);
    assert(dy * (rx - 1) == dy * rx - dy) by (nonlinear_arith);
    assert(dx * (ry - 1) == dx * ry - dx) by (nonlinear_arith);
}

/// What holds of every walk that starts with the error term of its
/// position: it begins where it stands, ends at the target, stays in the
/// box between the two, and moves by unit steps.
pub proof fn lemma_walk(x: int, y: int, e: int, x1: int, y1: int, dx: int, dy: int)
    requires
        on_track(x, y, e, x1, y1, dx, dy),
    ensures
        walk(x, y, e, x1, y1, dx, dy).len() >= 1,
        walk(x, y, e, x1, y1, dx, dy).len() <= 1 + span(x, x1) + span(y, y1),
        walk(x, y, e, x1, y1, dx, dy)[0] == (x, y),
        walk(x, y, e, x1, y1, dx, dy).last() == (x1, y1),
        within_box(walk(x, y, e, x1, y1, dx, dy), x, y, x1, y1),
        unit_steps(walk(x, y, e, x1, y1, dx, dy), x1, y1),
    decreases span(x, x1) + span(y, y1),
{
    let p = walk(x, y, e, x1, y1, dx, dy);
    let along_x = 2 * e >= dy;
    let along_y = 2 * e < dx;
    if (x == x1 && y == y1) || (along_x && x == x1) || (along_y && y == y1) {
        if !(x == x1 && y == y1) {
            lemma_stops_at_target(x, y, e, x1, y1, dx, dy);
        }
        assert(p =~= seq![(x, y)]);
    } else {
        let nx = if along_x {
            toward(x, x1)
        } else {
            x
        };
        let ny = if along_y {
            toward(y, y1)
        } else {
            y
        };
        let ne = e + (if along_x {
            dy
        } else {
            0
        }) + (if along_y {
            dx
        } else {
            0
        });
        lemma_step_on_track(x, y, e, x1, y1, dx, dy);
        lemma_walk(nx, ny, ne, x1, y1, dx, dy);
        let rest = walk(nx, ny, ne, x1, y1, dx, dy);
        assert(p =~= seq![(x, y)].add(rest));
        assert(p.last() == rest.last());
        assert forall|i: int| 0 <= i < p.len() implies between(x, #[trigger] p[i].0, x1)
            && between(y, p[i].1, y1) by {
            if i > 0 {
                assert(p[i] == rest[i - 1]);
            }
        }
        assert forall|i: int| #![trigger p[i + 1]] 0 <= i < p.len() - 1 implies {
            &&& (p[i + 1].0 == p[i].0 || p[i + 1].0 == toward(p[i].0, x1))
            &&& (p[i + 1].1 == p[i].1 || p[i + 1].1 == toward(p[i].1, y1))
            &&& p[i + 1] != p[i]
        } by {
            if i > 0 {
                assert(p[i] == rest[i - 1]);
                assert(p[i + 1] == rest[i - 1 + 1]);
            } else {
                assert(p[1] == rest[0]);
            }
        }
    }
}

/// The line walker's sequence starts at the start point, ends at the end
/// point, never leaves the box between them, and between two consecutive
/// points moves by at most one cell on each axis, towards the end point,
/// and by at least one cell on one of them.
pub proof fn lemma_line_points(x0: int, y0: int, x1: int, y1: int)
    ensures
        line_points(x0, y0, x1, y1).len() >= 1,
        line_points(x0, y0, x1, y1).len() <= 1 + span(x0, x1) + span(y0, y1),
        line_points(x0, y0, x1, y1)[0] == (x0, y0),
        line_points(x0, y0, x1, y1).last() == (x1, y1),
        within_box(line_points(x0, y0, x1, y1), x0, y0, x1, y1),
        unit_steps(line_points(x0, y0, x1, y1), x1, y1),
{
    let dx = span(x0, x1);
    let dy = -span(y0, y1);
    assert(dy * dx + dx * (-dy) == 0) by (nonlinear_arith);
    lemma_walk(x0, y0, dx + dy, x1, y1, dx, dy);
}

/// Between consecutive points of a line no coordinate changes by more than
/// one.
pub proof fn lemma_line_points_no_gaps(x0: int, y0: int, x1: int, y1: int, i: int)
    requires
        0 <= i < line_points(x0, y0, x1, y1).len() - 1,
    ensures
        span(line_points(x0, y0, x1, y1)[i].0, line_points(x0, y0, x1, y1)[i + 1].0) <= 1,
        span(line_points(x0, y0, x1, y1)[i].1, line_points(x0, y0, x1, y1)[i + 1].1) <= 1,
{
    lemma_line_points(x0, y0, x1, y1);
    let p = line_points(x0, y0, x1, y1);
    assert(p[i + 1].0 == p[i].0 || p[i + 1].0 == toward(p[i].0, x1));
}

/// Along unit steps towards a target the distance to the target falls by
/// one at least with each step.
pub proof fn lemma_unit_steps_come_closer(p: Seq<(int, int)>, x1: int, y1: int, i: int, j: int)
    requires
        unit_steps(p, x1, y1),
        0 <= i <= j < p.len(),
    ensures
        span(p[j].0, x1) + span(p[j].1, y1) + (j - i) <= span(p[i].0, x1) + span(p[i].1, y1),
    decreases j - i,
{
    if i < j {
        lemma_unit_steps_come_closer(p, x1, y1, i, j - 1);
        assert(p[j - 1 + 1] != p[j - 1]);
    }
}

/// No point of a line is drawn twice.
pub proof fn lemma_line_points_distinct(x0: int, y0: int, x1: int, y1: int)
    ensures
        forall|i: int, j: int|
            #![trigger line_points(x0, y0, x1, y1)[i], line_points(x0, y0, x1, y1)[j]]
            0 <= i < j < line_points(x0, y0, x1, y1).len() ==> line_points(x0, y0, x1, y1)[i]
                != line_points(x0, y0, x1, y1)[j],
{
    lemma_line_points(x0, y0, x1, y1);
    let p = line_points(x0, y0, x1, y1);
    assert forall|i: int, j: int| 0 <= i < j < p.len() implies #[trigger] p[i] != #[trigger] p[j] by {
        lemma_unit_steps_come_closer(p, x1, y1, i, j);
    }
}

/// The point number `i` of a level line lies `i` columns from the start; the
/// last one is the end.
proof fn lemma_level_line_at(x0: int, y: int, x1: int, i: int)
    requires
        0 <= i < line_points(x0, y, x1, y).len(),
    ensures
        i == line_points(x0, y, x1, y).len() - 1 ==> i == span(x0, x1),
        line_points(x0, y, x1, y)[i] == (
            if x0 <= x1 {
                x0 + i
            } else {
                x0 - i
            },
            y,
        ),
    decreases i,
{
    lemma_line_points(x0, y, x1, y);
    let p = line_points(x0, y, x1, y);
    assert(between(x0, p[i].0, x1) && between(y, p[i].1, y));
    if i > 0 {
        lemma_level_line_at(x0, y, x1, i - 1);
        assert(between(y, p[i - 1].1, y));
        assert(p[i - 1 + 1] != p[i - 1]);
    }
}

/// A level line runs through every column between its ends, one after the
/// other: its point number `i` lies `i` columns from the start.
pub proof fn lemma_level_line(x0: int, y: int, x1: int, i: int)
    requires
        0 <= i < line_points(x0, y, x1, y).len(),
    ensures
        line_points(x0, y, x1, y).len() == span(x0, x1) + 1,
        line_points(x0, y, x1, y)[i] == (
            if x0 <= x1 {
                x0 + i
            } else {
                x0 - i
            },
            y,
        ),
{
    lemma_level_line_at(x0, y, x1, i);
    lemma_level_line_at(x0, y, x1, line_points(x0, y, x1, y).len() - 1);
}

/// The points of a level line are the points on its row between its ends.
pub proof fn lemma_level_line_contains(x0: int, y: int, x1: int, q: (int, int))
    ensures
        line_points(x0, y, x1, y).contains(q) <==> q.1 == y && between(x0, q.0, x1),
{
    lemma_line_points(x0, y, x1, y);
    let p = line_points(x0, y, x1, y);
    if p.contains(q) {
        let i = choose|i: int| 0 <= i < p.len() && p[i] == q;
        assert(between(x0, p[i].0, x1) && between(y, p[i].1, y));
    }
    if q.1 == y && between(x0, q.0, x1) {
        lemma_level_line(x0, y, x1, 0);
        let i = span(x0, q.0);
        lemma_level_line(x0, y, x1, i);
        assert(p[i] == q);
    }
}

/// A walk along the line between two lattice points. Each call of `next`
/// hands out one point, from the start point to the end point; after the end
/// point the walker is spent.
pub struct BresenhamLine {
    x0: i64,
    y0: i64,
    x1: i64,
    y1: i64,
    dx: i64,
    dy: i64,
    sx: i64,
    sy: i64,
    error: i64,
    line_complete: bool,
}

impl View for BresenhamLine {
    type V = Seq<(int, int)>;

    /// The points that are still to come, the next one first.
    closed spec fn view(&self) -> Seq<(int, int)> {
        if self.line_complete {
            Seq::empty()
        } else {
            walk(
                self.x0 as int,
                self.y0 as int,
                self.error as int,
                self.x1 as int,
                self.y1 as int,
                self.dx as int,
                self.dy as int,
            )
        }
    }
}

impl BresenhamLine {
    /// The walker's fields fit together: a walker that is not spent stands
    /// on a point between start and target, with the error term of that
    /// point and with steps that lead to the target.
    pub closed spec fn wf(&self) -> bool {
        self.line_complete || {
            &&& 0 <= self.x0 <= u32::MAX
            &&& 0 <= self.y0 <= u32::MAX
            &&& 0 <= self.x1 <= u32::MAX
            &&& 0 <= self.y1 <= u32::MAX
            &&& self.dx <= u32::MAX
            &&& -self.dy <= u32::MAX
            &&& on_track(
                self.x0 as int,
                self.y0 as int,
                self.error as int,
                self.x1 as int,
                self.y1 as int,
                self.dx as int,
                self.dy as int,
            )
            &&& -2 * (self.dx - self.dy) <= self.error <= 2 * (self.dx - self.dy)
            &&& self.x0 != self.x1 ==> self.x0 + self.sx == toward(self.x0 as int, self.x1 as int)
            &&& self.y0 != self.y1 ==> self.y0 + self.sy == toward(self.y0 as int, self.y1 as int)
            &&& -1 <= self.sx <= 1
            &&& -1 <= self.sy <= 1
        }
    }

    /// A walker from `(x0, y0)` to `(x1, y1)`.
    pub fn new(x0: u32, y0: u32, x1: u32, y1: u32) -> (line: Self)
        ensures
            line.wf(),
            line@ == line_points(x0 as int, y0 as int, x1 as int, y1 as int),
    {
        let x0: i64 = x0 as i64;
        let y0: i64 = y0 as i64;
        let x1: i64 = x1 as i64;
        let y1: i64 = y1 as i64;

        let dx: i64 = if x0 < x1 {
            x1 - x0
        } else {
            x0 - x1
        };
        let dy: i64 = if y0 < y1 {
            y0 - y1
        } else {
            y1 - y0
        };

        let sx: i64 = if x0 < x1 {
            1
        } else {
            -1
        };
        let sy: i64 = if y0 < y1 {
            1
        } else {
            -1
        };

        let error: i64 = dx + dy;

        proof {
            assert(dy * dx + dx * (-dy) == 0) by (nonlinear_arith);
        }
        Self { x0, y0, x1, y1, dx, dy, sx, sy, error, line_complete: false }
    }

    /// The next point of the line, or `None` once the end point has been
    /// handed out.
    pub fn next(&mut self) -> (point: Option<(u32, u32)>)
        requires
            old(self).wf(),
        ensures
            final(self).wf(),
            point is None <==> old(self)@.len() == 0,
            point is None ==> *final(self) == *old(self),
            point matches Some(p) ==> {
                &&& old(self)@[0] == (p.0 as int, p.1 as int)
                &&& final(self)@ == old(self)@.skip(1)
            },
    {
        if self.line_complete {
            return None;
        }
        let point = (self.x0 as u32, self.y0 as u32);
        proof {
            let along_x = 2 * self.error >= self.dy;
            let along_y = 2 * self.error < self.dx;
            if !((self.x0 == self.x1 && self.y0 == self.y1) || (along_x && self.x0 == self.x1)
                || (along_y && self.y0 == self.y1)) {
                lemma_step_on_track(
                    self.x0 as int,
                    self.y0 as int,
                    self.error as int,
                    self.x1 as int,
                    self.y1 as int,
                    self.dx as int,
                    self.dy as int,
                );
            }
        }

        if self.x0 == self.x1 && self.y0 == self.y1 {
            self.line_complete = true;
        }
        let error_2: i64 = 2 * self.error;
        if error_2 >= self.dy {
            if self.x0 == self.x1 {
                self.line_complete = true;
            } else {
                self.error += self.dy;
                self.x0 += self.sx;
            }
        }
        if error_2 < self.dx {
            if self.y0 == self.y1 {
                self.line_complete = true;
            } else {
                self.error += self.dx;
                self.y0 += self.sy;
            }
        }
        proof {
            if self.line_complete {
                assert(old(self)@ =~= seq![(point.0 as int, point.1 as int)]);
                assert(self@ =~= old(self)@.skip(1));
            } else {
                assert(old(self)@ =~= seq![(point.0 as int, point.1 as int)].add(self@));
                assert(self@ =~= old(self)@.skip(1));
            }
        }

        Some(point)
    }
}

} // verus!
