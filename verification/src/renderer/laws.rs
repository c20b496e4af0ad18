//! What the drawing operations do to each single cell of the picture, and
//! the symmetry of circles in the picture.

use vstd::prelude::*;

use crate::color::Color;
use crate::engine::sprite::Sprite;
use crate::font::RasterizedFont;
use crate::renderer::bresenham::{
    between, lemma_level_line_contains, lemma_line_points_distinct, line_points, span,
};
use crate::renderer::canvas::{
    blend_word, clamp_coordinate, clamp_inclusive, glyph_color, lower, sprite_color, Canvas,
};
use crate::renderer::circle::{
    circle_points, covered, disc_chords, lemma_circle_points_quarter_turn,
    lemma_disc_chords_quarter_turn, lemma_octant_chords_within, on_chord, quarter_turn,
};

verus! {

impl Canvas {
    /// The word of the cell `(x, y)`.
    pub open spec fn cell(self, x: int, y: int) -> u32 {
        self.pixels[self.index_of(x, y)]
    }

    /// The two pictures have the same measures and scale.
    pub open spec fn same_measures(self, other: Canvas) -> bool {
        &&& self.width == other.width
        &&& self.height == other.height
        &&& self.pixel_width == other.pixel_width
        &&& self.pixel_height == other.pixel_height
    }

    /// The cell `(cx, cy)` belongs to one of the logical pixels in the block
    /// of `n` columns and `rows` rows whose lower left one is `(x, y)`.
    pub open spec fn in_block(self, x: int, y: int, n: int, rows: int, cx: int, cy: int) -> bool {
        &&& x * self.pixel_width <= cx < (x + n) * self.pixel_width
        &&& y * self.pixel_height <= cy < (y + rows) * self.pixel_height
    }

    /// Each cell has a place of its own in the store.
    pub proof fn lemma_index_of(self, x: int, y: int, cx: int, cy: int)
        requires
            self.wf(),
            self.visible(x, y),
            self.visible(cx, cy),
        ensures
            0 <= self.index_of(x, y) < self.pixels.len(),
            self.index_of(x, y) == self.index_of(cx, cy) <==> x == cx && y == cy,
    {
        let w = self.width;
        let h = self.height;
        let r = h - y;
        let rc = h - cy;
        assert(0 <= r * w + x < w * h && 0 <= r * w) by (nonlinear_arith)
            requires
                0 <= r < h,
                0 <= x < w,
        ;
        assert(r * w + x == rc * w + cx ==> r == rc) by (nonlinear_arith)
            requires
                0 <= x < w,
                0 <= cx < w,
        ;
    }

    /// A pixel write blends its own cell and leaves every other cell and
    /// the measures as they are.
    pub proof fn lemma_put_pixel_cell(self, x: int, y: int, color: Color, cx: int, cy: int)
        requires
            self.wf(),
            self.visible(cx, cy),
        ensures
            self.put_pixel(x, y, color).wf(),
            self.put_pixel(x, y, color).same_measures(self),
            self.put_pixel(x, y, color).cell(cx, cy) == if x == cx && y == cy {
                blend_word(color, self.cell(cx, cy))
            } else {
                self.cell(cx, cy)
            },
    {
        if self.visible(x, y) {
            self.lemma_index_of(x, y, cx, cy);
        }
        self.lemma_index_of(cx, cy, cx, cy);
    }

    /// A row of pixel writes blends each of its cells once and leaves every
    /// other cell as it is.
    pub proof fn lemma_put_row_cell(self, x: int, y: int, n: int, color: Color, cx: int, cy: int)
        requires
            self.wf(),
            self.visible(cx, cy),
        ensures
            self.put_row(x, y, n, color).wf(),
            self.put_row(x, y, n, color).same_measures(self),
            self.put_row(x, y, n, color).cell(cx, cy) == if cy == y && x <= cx < x + n {
                blend_word(color, self.cell(cx, cy))
            } else {
                self.cell(cx, cy)
            },
        decreases n,
    {
        if n > 0 {
            self.lemma_put_pixel_cell(x, y, color, cx, cy);
            self.put_pixel(x, y, color).lemma_put_row_cell(x + 1, y, n - 1, color, cx, cy);
        }
    }

    /// A block of pixel writes blends each of its cells once and leaves
    /// every other cell as it is.
    pub proof fn lemma_put_block_cell(
        self,
        x: int,
        y: int,
        n: int,
        rows: int,
        color: Color,
        cx: int,
        cy: int,
    )
        requires
            self.wf(),
            self.visible(cx, cy),
        ensures
            self.put_block(x, y, n, rows, color).wf(),
            self.put_block(x, y, n, rows, color).same_measures(self),
            self.put_block(x, y, n, rows, color).cell(cx, cy) == if x <= cx < x + n && y <= cy < y
                + rows {
                blend_word(color, self.cell(cx, cy))
            } else {
                self.cell(cx, cy)
            },
        decreases rows,
    {
        if rows > 0 {
            self.lemma_put_row_cell(x, y, n, color, cx, cy);
            self.put_row(x, y, n, color).lemma_put_block_cell(
                x,
                y + 1,
                n,
                rows - 1,
                color,
                cx,
                cy,
            );
        }
    }

    /// Drawing a logical pixel blends the cells of its block, each once, and
    /// no cell outside the block: with a scale of four by four, sixteen
    /// cells in a square.
    pub proof fn lemma_draw_cell(self, x: int, y: int, color: Color, cx: int, cy: int)
        requires
            self.wf(),
            self.visible(cx, cy),
        ensures
            self.draw(x, y, color).wf(),
            self.draw(x, y, color).same_measures(self),
            self.draw(x, y, color).cell(cx, cy) == if self.in_block(x, y, 1, 1, cx, cy) {
                blend_word(color, self.cell(cx, cy))
            } else {
                self.cell(cx, cy)
            },
    {
        let pw = self.pixel_width;
        let ph = self.pixel_height;
        self.lemma_put_block_cell(x * pw, y * ph, pw, ph, color, cx, cy);
        assert((x + 1) * pw == x * pw + pw) by (nonlinear_arith);
        assert((y + 1) * ph == y * ph + ph) by (nonlinear_arith);
    }

    /// A row of logical pixels blends the cells of its pixels, each once,
    /// and no other cell.
    pub proof fn lemma_draw_row_cell(self, x: int, y: int, n: int, color: Color, cx: int, cy: int)
        requires
            self.wf(),
            self.visible(cx, cy),
            0 <= n,
        ensures
            self.draw_row(x, y, n, color).wf(),
            self.draw_row(x, y, n, color).same_measures(self),
            self.draw_row(x, y, n, color).cell(cx, cy) == if self.in_block(x, y, n, 1, cx, cy) {
                blend_word(color, self.cell(cx, cy))
            } else {
                self.cell(cx, cy)
            },
        decreases n,
    {
        let pw = self.pixel_width;
        if n > 0 {
            self.lemma_draw_cell(x, y, color, cx, cy);
            self.draw(x, y, color).lemma_draw_row_cell(x + 1, y, n - 1, color, cx, cy);
            assert((x + 1) * pw == x * pw + pw) by (nonlinear_arith);
            assert((x + 1 + (n - 1)) * pw == (x + n) * pw);
            assert((x + 1) * pw <= (x + n) * pw) by (nonlinear_arith)
                requires
                    n >= 1,
                    pw >= 0,
            ;
        } else {
            assert((x + 0) * pw == x * pw);
        }
    }

    /// A block of logical pixels blends the cells of its pixels, each once,
    /// and no other cell.
    pub proof fn lemma_draw_block_cell(
        self,
        x: int,
        y: int,
        n: int,
        rows: int,
        color: Color,
        cx: int,
        cy: int,
    )
        requires
            self.wf(),
            self.visible(cx, cy),
            0 <= n,
            0 <= rows,
        ensures
            self.draw_block(x, y, n, rows, color).wf(),
            self.draw_block(x, y, n, rows, color).same_measures(self),
            self.draw_block(x, y, n, rows, color).cell(cx, cy) == if self.in_block(
                x,
                y,
                n,
                rows,
                cx,
                cy,
            ) {
                blend_word(color, self.cell(cx, cy))
            } else {
                self.cell(cx, cy)
            },
        decreases rows,
    {
        let ph = self.pixel_height;
        if rows > 0 {
            self.lemma_draw_row_cell(x, y, n, color, cx, cy);
            self.draw_row(x, y, n, color).lemma_draw_block_cell(
                x,
                y + 1,
                n,
                rows - 1,
                color,
                cx,
                cy,
            );
            assert((y + 1) * ph == y * ph + ph) by (nonlinear_arith);
            assert((y + 1 + (rows - 1)) * ph == (y + rows) * ph);
            assert((y + 1) * ph <= (y + rows) * ph) by (nonlinear_arith)
                requires
                    rows >= 1,
                    ph >= 0,
            ;
        } else {
            assert((y + 0) * ph == y * ph);
        }
    }

    /// A filled rectangle blends the cells of the logical pixels in its
    /// box, both bounds of the box included, each cell once, and no other
    /// cell. The box is the one between the corners after they were moved
    /// into the picture.
    pub proof fn lemma_draw_filled_rectangle_cell(
        self,
        x: int,
        y: int,
        width: int,
        height: int,
        color: Color,
        cx: int,
        cy: int,
    )
        requires
            self.wf(),
            self.visible(cx, cy),
        ensures
            self.draw_filled_rectangle(x, y, width, height, color).wf(),
            self.draw_filled_rectangle(x, y, width, height, color).same_measures(self),
            self.draw_filled_rectangle(x, y, width, height, color).cell(cx, cy) == if self.in_block(
                lower(clamp_inclusive(x, self.width), clamp_inclusive(x + width, self.width)),
                lower(clamp_inclusive(y, self.height), clamp_inclusive(y + height, self.height)),
                span(clamp_inclusive(x, self.width), clamp_inclusive(x + width, self.width)) + 1,
                span(clamp_inclusive(y, self.height), clamp_inclusive(y + height, self.height))
                    + 1,
                cx,
                cy,
            ) {
                blend_word(color, self.cell(cx, cy))
            } else {
                self.cell(cx, cy)
            },
    {
        let xa = clamp_inclusive(x, self.width);
        let xb = clamp_inclusive(x + width, self.width);
        let ya = clamp_inclusive(y, self.height);
        let yb = clamp_inclusive(y + height, self.height);
        self.lemma_draw_block_cell(
            lower(xa, xb),
            lower(ya, yb),
            span(xa, xb) + 1,
            span(ya, yb) + 1,
            color,
            cx,
            cy,
        );
    }

    /// The cell `(cx, cy)` belongs to one of the logical pixels `points`.
    pub open spec fn on_points(self, points: Seq<(int, int)>, cx: int, cy: int) -> bool {
        exists|i: int|
            0 <= i < points.len() && self.in_block(
                (#[trigger] points[i]).0,
                points[i].1,
                1,
                1,
                cx,
                cy,
            )
    }

    /// A cell belongs to one logical pixel at most.
    pub proof fn lemma_one_pixel_for_each_cell(self, a: (int, int), b: (int, int), cx: int, cy: int)
        requires
            self.in_block(a.0, a.1, 1, 1, cx, cy),
            self.in_block(b.0, b.1, 1, 1, cx, cy),
        ensures
            a == b,
    {
        let pw = self.pixel_width;
        let ph = self.pixel_height;
        assert(a.0 == b.0) by (nonlinear_arith)
            requires
                a.0 * pw <= cx < (a.0 + 1) * pw,
                b.0 * pw <= cx < (b.0 + 1) * pw,
        ;
        assert(a.1 == b.1) by (nonlinear_arith)
            requires
                a.1 * ph <= cy < (a.1 + 1) * ph,
                b.1 * ph <= cy < (b.1 + 1) * ph,
        ;
    }

    /// Drawing logical pixels of which none comes twice blends the cells of
    /// those pixels, each once, and no other cell.
    pub proof fn lemma_draw_points_cell(
        self,
        points: Seq<(int, int)>,
        color: Color,
        cx: int,
        cy: int,
    )
        requires
            self.wf(),
            self.visible(cx, cy),
            forall|i: int, j: int|
                #![trigger points[i], points[j]]
                0 <= i < j < points.len() ==> points[i] != points[j],
        ensures
            self.draw_points(points, color).wf(),
            self.draw_points(points, color).same_measures(self),
            self.draw_points(points, color).cell(cx, cy) == if self.on_points(points, cx, cy) {
                blend_word(color, self.cell(cx, cy))
            } else {
                self.cell(cx, cy)
            },
        decreases points.len(),
    {
        if points.len() > 0 {
            let first = points[0];
            let rest = points.skip(1);
            let after = self.draw(first.0, first.1, color);
            self.lemma_draw_cell(first.0, first.1, color, cx, cy);
            assert forall|i: int, j: int| 0 <= i < j < rest.len() implies #[trigger] rest[i]
                != #[trigger] rest[j] by {
                assert(rest[i] == points[i + 1]);
                assert(rest[j] == points[j + 1]);
            }
            after.lemma_draw_points_cell(rest, color, cx, cy);
            if after.on_points(rest, cx, cy) {
                let i = choose|i: int|
                    0 <= i < rest.len() && after.in_block(
                        (#[trigger] rest[i]).0,
                        rest[i].1,
                        1,
                        1,
                        cx,
                        cy,
                    );
                assert(points[i + 1] == rest[i]);
                assert(self.in_block(points[i + 1].0, points[i + 1].1, 1, 1, cx, cy));
                if self.in_block(first.0, first.1, 1, 1, cx, cy) {
                    self.lemma_one_pixel_for_each_cell(first, points[i + 1], cx, cy);
                    assert(points[0] != points[i + 1]);
                }
            }
            if self.on_points(points, cx, cy) && !self.in_block(first.0, first.1, 1, 1, cx, cy) {
                let i = choose|i: int|
                    0 <= i < points.len() && self.in_block(
                        (#[trigger] points[i]).0,
                        points[i].1,
                        1,
                        1,
                        cx,
                        cy,
                    );
                assert(rest[i - 1] == points[i]);
                assert(after.in_block(rest[i - 1].0, rest[i - 1].1, 1, 1, cx, cy));
            }
            if self.in_block(first.0, first.1, 1, 1, cx, cy) {
                assert(self.in_block(points[0].0, points[0].1, 1, 1, cx, cy));
            }
        }
    }

    /// Drawing logical pixels in a fully opaque colour leaves that colour in
    /// the cells of those pixels, however often a pixel comes, and leaves
    /// every other cell as it is.
    pub proof fn lemma_draw_points_opaque_cell(
        self,
        points: Seq<(int, int)>,
        color: Color,
        cx: int,
        cy: int,
    )
        requires
            self.wf(),
            self.visible(cx, cy),
            color.a() == 255,
        ensures
            self.draw_points(points, color).wf(),
            self.draw_points(points, color).same_measures(self),
            self.draw_points(points, color).cell(cx, cy) == if self.on_points(points, cx, cy) {
                color.argb()
            } else {
                self.cell(cx, cy)
            },
        decreases points.len(),
    {
        if points.len() > 0 {
            let first = points[0];
            let rest = points.skip(1);
            let after = self.draw(first.0, first.1, color);
            self.lemma_draw_cell(first.0, first.1, color, cx, cy);
            Self::lemma_blend_word_opaque(color, self.cell(cx, cy));
            after.lemma_draw_points_opaque_cell(rest, color, cx, cy);
            if after.on_points(rest, cx, cy) {
                let i = choose|i: int|
                    0 <= i < rest.len() && after.in_block(
                        (#[trigger] rest[i]).0,
                        rest[i].1,
                        1,
                        1,
                        cx,
                        cy,
                    );
                assert(points[i + 1] == rest[i]);
                assert(self.in_block(points[i + 1].0, points[i + 1].1, 1, 1, cx, cy));
            }
            if self.on_points(points, cx, cy) && !self.in_block(first.0, first.1, 1, 1, cx, cy) {
                let i = choose|i: int|
                    0 <= i < points.len() && self.in_block(
                        (#[trigger] points[i]).0,
                        points[i].1,
                        1,
                        1,
                        cx,
                        cy,
                    );
                assert(rest[i - 1] == points[i]);
                assert(after.in_block(rest[i - 1].0, rest[i - 1].1, 1, 1, cx, cy));
            }
            if self.in_block(first.0, first.1, 1, 1, cx, cy) {
                assert(self.in_block(points[0].0, points[0].1, 1, 1, cx, cy));
            }
        }
    }

    /// The outline of a circle in a fully opaque colour leaves that colour
    /// in the cells of the points of the circle and leaves every other cell
    /// as it is.
    pub proof fn lemma_draw_wireframe_circle_cell(
        self,
        x: int,
        y: int,
        radius: int,
        color: Color,
        cx: int,
        cy: int,
    )
        requires
            self.wf(),
            self.visible(cx, cy),
            color.a() == 255,
        ensures
            self.draw_wireframe_circle(x, y, radius, color).cell(cx, cy) == if self.on_points(
                circle_points(x, y, radius),
                cx,
                cy,
            ) {
                color.argb()
            } else {
                self.cell(cx, cy)
            },
    {
        self.lemma_draw_points_opaque_cell(circle_points(x, y, radius), color, cx, cy);
    }

    /// With logical pixels of one cell, a cell belongs to the logical pixels
    /// `points` exactly if it is one of them.
    pub proof fn lemma_on_points_of_one_cell(self, points: Seq<(int, int)>, cx: int, cy: int)
        requires
            self.pixel_width == 1,
            self.pixel_height == 1,
        ensures
            self.on_points(points, cx, cy) <==> points.contains((cx, cy)),
    {
        if self.on_points(points, cx, cy) {
            let i = choose|i: int|
                0 <= i < points.len() && self.in_block(
                    (#[trigger] points[i]).0,
                    points[i].1,
                    1,
                    1,
                    cx,
                    cy,
                );
            assert(points[i] == (cx, cy));
        }
        if points.contains((cx, cy)) {
            let i = choose|i: int| 0 <= i < points.len() && points[i] == (cx, cy);
            assert(self.in_block(points[i].0, points[i].1, 1, 1, cx, cy));
        }
    }

    /// The picture of a circle's outline is symmetric under a quarter turn
    /// about the centre: drawn in a fully opaque colour with logical pixels
    /// of one cell, it leaves a cell and the cell a quarter turn on alike
    /// wherever both are in the picture and were alike before.
    pub proof fn lemma_wireframe_circle_quarter_turn(
        self,
        x: int,
        y: int,
        radius: int,
        color: Color,
        cx: int,
        cy: int,
    )
        requires
            self.wf(),
            self.pixel_width == 1,
            self.pixel_height == 1,
            color.a() == 255,
            self.visible(cx, cy),
            self.visible(quarter_turn(x, y, (cx, cy)).0, quarter_turn(x, y, (cx, cy)).1),
            self.cell(cx, cy) == self.cell(
                quarter_turn(x, y, (cx, cy)).0,
                quarter_turn(x, y, (cx, cy)).1,
            ),
        ensures
            self.draw_wireframe_circle(x, y, radius, color).cell(cx, cy)
                == self.draw_wireframe_circle(x, y, radius, color).cell(
                quarter_turn(x, y, (cx, cy)).0,
                quarter_turn(x, y, (cx, cy)).1,
            ),
    {
        let q = quarter_turn(x, y, (cx, cy));
        let points = circle_points(x, y, radius);
        self.lemma_draw_points_opaque_cell(points, color, cx, cy);
        self.lemma_draw_points_opaque_cell(points, color, q.0, q.1);
        self.lemma_on_points_of_one_cell(points, cx, cy);
        self.lemma_on_points_of_one_cell(points, q.0, q.1);
        lemma_circle_points_quarter_turn(x, y, radius, (cx, cy));
    }

    /// The walk of the line that is drawn for a segment `(x0, y0, x1, y1)`:
    /// the line between its ends after they were moved into the picture.
    pub open spec fn walk_of(self, segment: (int, int, int, int)) -> Seq<(int, int)> {
        line_points(
            clamp_coordinate(segment.0, self.width),
            clamp_coordinate(segment.1, self.height),
            clamp_coordinate(segment.2, self.width),
            clamp_coordinate(segment.3, self.height),
        )
    }

    /// The cell `(cx, cy)` belongs to a logical pixel of the line that is
    /// drawn for one of the segments.
    pub open spec fn on_segments(
        self,
        segments: Seq<(int, int, int, int)>,
        cx: int,
        cy: int,
    ) -> bool {
        exists|i: int|
            0 <= i < segments.len() && self.on_points(self.walk_of(#[trigger] segments[i]), cx, cy)
    }

    /// Drawing lines in a fully opaque colour leaves that colour in the
    /// cells of their logical pixels and leaves every other cell as it is.
    pub proof fn lemma_draw_segments_opaque_cell(
        self,
        segments: Seq<(int, int, int, int)>,
        color: Color,
        cx: int,
        cy: int,
    )
        requires
            self.wf(),
            self.visible(cx, cy),
            color.a() == 255,
        ensures
            self.draw_segments(segments, color).wf(),
            self.draw_segments(segments, color).same_measures(self),
            self.draw_segments(segments, color).cell(cx, cy) == if self.on_segments(
                segments,
                cx,
                cy,
            ) {
                color.argb()
            } else {
                self.cell(cx, cy)
            },
        decreases segments.len(),
    {
        if segments.len() > 0 {
            let first = segments[0];
            let rest = segments.skip(1);
            let after = self.draw_line(first.0, first.1, first.2, first.3, color);
            self.lemma_draw_points_opaque_cell(self.walk_of(first), color, cx, cy);
            after.lemma_draw_segments_opaque_cell(rest, color, cx, cy);
            if after.on_segments(rest, cx, cy) {
                let i = choose|i: int|
                    0 <= i < rest.len() && after.on_points(
                        after.walk_of(#[trigger] rest[i]),
                        cx,
                        cy,
                    );
                assert(segments[i + 1] == rest[i]);
                assert(after.walk_of(rest[i]) == self.walk_of(segments[i + 1]));
                assert(after.on_points(after.walk_of(rest[i]), cx, cy) == self.on_points(
                    self.walk_of(segments[i + 1]),
                    cx,
                    cy,
                ));
            }
            if self.on_segments(segments, cx, cy) && !self.on_points(
                self.walk_of(first),
                cx,
                cy,
            ) {
                let i = choose|i: int|
                    0 <= i < segments.len() && self.on_points(
                        self.walk_of(#[trigger] segments[i]),
                        cx,
                        cy,
                    );
                assert(rest[i - 1] == segments[i]);
                assert(after.walk_of(rest[i - 1]) == self.walk_of(segments[i]));
                assert(after.on_points(after.walk_of(rest[i - 1]), cx, cy) == self.on_points(
                    self.walk_of(segments[i]),
                    cx,
                    cy,
                ));
            }
            if self.on_points(self.walk_of(first), cx, cy) {
                assert(self.on_points(self.walk_of(segments[0]), cx, cy));
            }
        }
    }

    /// With logical pixels of one cell and a disc whose columns lie in
    /// `0..width` and whose heights lie in `0..height`, so that no end of a
    /// chord is moved, a cell belongs to the lines drawn for the disc
    /// exactly if it lies on a chord of the disc.
    pub proof fn lemma_on_disc_chords(self, x: int, y: int, radius: int, cx: int, cy: int)
        requires
            self.pixel_width == 1,
            self.pixel_height == 1,
            radius <= x,
            x + radius < self.width,
            radius <= y,
            y + radius < self.height,
        ensures
            self.on_segments(disc_chords(x, y, radius), cx, cy) <==> covered(
                disc_chords(x, y, radius),
                (cx, cy),
            ),
    {
        let all = disc_chords(x, y, radius);
        assert forall|i: int| 0 <= i < all.len() implies (self.on_points(
            self.walk_of(#[trigger] all[i]),
            cx,
            cy,
        ) <==> on_chord(all[i], (cx, cy))) by {
            lemma_octant_chords_within(x, y, 0, radius, 3 - 2 * radius, radius, i);
            self.lemma_on_points_of_one_cell(self.walk_of(all[i]), cx, cy);
            lemma_level_line_contains(all[i].0, all[i].1, all[i].2, (cx, cy));
        }
        if self.on_segments(all, cx, cy) {
            let i = choose|i: int|
                0 <= i < all.len() && self.on_points(self.walk_of(#[trigger] all[i]), cx, cy);
            assert(on_chord(all[i], (cx, cy)));
        }
        if covered(all, (cx, cy)) {
            let i = choose|i: int| 0 <= i < all.len() && on_chord(#[trigger] all[i], (cx, cy));
            assert(self.on_points(self.walk_of(all[i]), cx, cy));
        }
    }

    /// The picture of a disc is symmetric under a quarter turn about the
    /// centre: drawn in a fully opaque colour with logical pixels of one
    /// cell, a disc whose columns lie in `0..width` and whose heights lie in
    /// `0..height` leaves a cell and the cell a quarter turn on alike
    /// wherever both are in the picture and were alike before.
    pub proof fn lemma_filled_circle_quarter_turn(
        self,
        x: int,
        y: int,
        radius: int,
        color: Color,
        cx: int,
        cy: int,
    )
        requires
            self.wf(),
            self.pixel_width == 1,
            self.pixel_height == 1,
            color.a() == 255,
            radius <= x,
            x + radius < self.width,
            radius <= y,
            y + radius < self.height,
            self.visible(cx, cy),
            self.visible(quarter_turn(x, y, (cx, cy)).0, quarter_turn(x, y, (cx, cy)).1),
            self.cell(cx, cy) == self.cell(
                quarter_turn(x, y, (cx, cy)).0,
                quarter_turn(x, y, (cx, cy)).1,
            ),
        ensures
            self.draw_filled_circle(x, y, radius, color).cell(cx, cy) == self.draw_filled_circle(
                x,
                y,
                radius,
                color,
            ).cell(quarter_turn(x, y, (cx, cy)).0, quarter_turn(x, y, (cx, cy)).1),
    {
        let q = quarter_turn(x, y, (cx, cy));
        let all = disc_chords(x, y, radius);
        self.lemma_draw_segments_opaque_cell(all, color, cx, cy);
        self.lemma_draw_segments_opaque_cell(all, color, q.0, q.1);
        self.lemma_on_disc_chords(x, y, radius, cx, cy);
        self.lemma_on_disc_chords(x, y, radius, q.0, q.1);
        lemma_disc_chords_quarter_turn(x, y, radius, (cx, cy));
    }

    /// Filling a box of cells blends each cell of the box once and leaves
    /// every other cell as it is.
    pub proof fn lemma_fill_rect_cell(
        self,
        from_x: int,
        from_y: int,
        to_x: int,
        to_y: int,
        color: Color,
        cx: int,
        cy: int,
    )
        requires
            self.wf(),
            self.visible(cx, cy),
        ensures
            self.fill_rect(from_x, from_y, to_x, to_y, color).wf(),
            self.fill_rect(from_x, from_y, to_x, to_y, color).same_measures(self),
            self.fill_rect(from_x, from_y, to_x, to_y, color).cell(cx, cy) == if between(
                clamp_inclusive(from_x, self.width),
                cx,
                clamp_inclusive(to_x, self.width),
            ) && between(
                clamp_inclusive(from_y, self.height),
                cy,
                clamp_inclusive(to_y, self.height),
            ) {
                blend_word(color, self.cell(cx, cy))
            } else {
                self.cell(cx, cy)
            },
    {
        let xa = clamp_inclusive(from_x, self.width);
        let xb = clamp_inclusive(to_x, self.width);
        let ya = clamp_inclusive(from_y, self.height);
        let yb = clamp_inclusive(to_y, self.height);
        self.lemma_put_block_cell(
            lower(xa, xb),
            lower(ya, yb),
            span(xa, xb) + 1,
            span(ya, yb) + 1,
            color,
            cx,
            cy,
        );
    }

    /// A line blends the cells of the logical pixels of its walk, each once,
    /// and no other cell.
    pub proof fn lemma_draw_line_cell(
        self,
        x0: int,
        y0: int,
        x1: int,
        y1: int,
        color: Color,
        cx: int,
        cy: int,
    )
        requires
            self.wf(),
            self.visible(cx, cy),
        ensures
            self.draw_line(x0, y0, x1, y1, color).wf(),
            self.draw_line(x0, y0, x1, y1, color).same_measures(self),
            self.draw_line(x0, y0, x1, y1, color).cell(cx, cy) == if self.on_points(
                line_points(
                    clamp_coordinate(x0, self.width),
                    clamp_coordinate(y0, self.height),
                    clamp_coordinate(x1, self.width),
                    clamp_coordinate(y1, self.height),
                ),
                cx,
                cy,
            ) {
                blend_word(color, self.cell(cx, cy))
            } else {
                self.cell(cx, cy)
            },
    {
        lemma_line_points_distinct(
            clamp_coordinate(x0, self.width),
            clamp_coordinate(y0, self.height),
            clamp_coordinate(x1, self.width),
            clamp_coordinate(y1, self.height),
        );
        self.lemma_draw_points_cell(
            line_points(
                clamp_coordinate(x0, self.width),
                clamp_coordinate(y0, self.height),
                clamp_coordinate(x1, self.width),
                clamp_coordinate(y1, self.height),
            ),
            color,
            cx,
            cy,
        );
    }

    /// The cell `(cx, cy)` belongs to the logical pixel on which the sprite
    /// pixel in the column `column` of the row `row` is drawn.
    pub open spec fn under_sprite_pixel(
        self,
        x: int,
        y: int,
        sprite: Sprite,
        column: int,
        row: int,
        cx: int,
        cy: int,
    ) -> bool {
        self.in_block(x + column, y + (sprite.height() - row), 1, 1, cx, cy)
    }

    /// A row of a sprite blends onto each cell under one of its pixels the
    /// colour of that pixel, once, and leaves every other cell as it is.
    pub proof fn lemma_draw_sprite_row_cell(
        self,
        x: int,
        y: int,
        sprite: Sprite,
        row: int,
        column: int,
        cx: int,
        cy: int,
    )
        requires
            self.wf(),
            self.visible(cx, cy),
        ensures
            self.draw_sprite_row(x, y, sprite, row, column).wf(),
            self.draw_sprite_row(x, y, sprite, row, column).same_measures(self),
            forall|c: int|
                column <= c < sprite.width() && #[trigger] self.under_sprite_pixel(
                    x,
                    y,
                    sprite,
                    c,
                    row,
                    cx,
                    cy,
                ) ==> self.draw_sprite_row(x, y, sprite, row, column).cell(cx, cy) == blend_word(
                    sprite_color(sprite.spec_data(), sprite.width() as int, c, row),
                    self.cell(cx, cy),
                ),
            (forall|c: int|
                column <= c < sprite.width() ==> !#[trigger] self.under_sprite_pixel(
                    x,
                    y,
                    sprite,
                    c,
                    row,
                    cx,
                    cy,
                )) ==> self.draw_sprite_row(x, y, sprite, row, column).cell(cx, cy) == self.cell(
                cx,
                cy,
            ),
        decreases sprite.width() - column,
    {
        if column < sprite.width() {
            let height = y + (sprite.height() - row);
            let color = sprite_color(sprite.spec_data(), sprite.width() as int, column, row);
            let after = self.draw(x + column, height, color);
            self.lemma_draw_cell(x + column, height, color, cx, cy);
            after.lemma_draw_sprite_row_cell(x, y, sprite, row, column + 1, cx, cy);
            assert forall|c: int|
                column + 1 <= c < sprite.width() implies (#[trigger] after.under_sprite_pixel(
                x,
                y,
                sprite,
                c,
                row,
                cx,
                cy,
            ) <==> self.under_sprite_pixel(x, y, sprite, c, row, cx, cy)) by {}
            assert forall|c: int|
                column + 1 <= c < sprite.width() && self.under_sprite_pixel(
                    x,
                    y,
                    sprite,
                    column,
                    row,
                    cx,
                    cy,
                ) implies !#[trigger] self.under_sprite_pixel(x, y, sprite, c, row, cx, cy) by {
                if self.under_sprite_pixel(x, y, sprite, c, row, cx, cy) {
                    self.lemma_one_pixel_for_each_cell(
                        (x + column, height),
                        (x + c, height),
                        cx,
                        cy,
                    );
                }
            }
            if self.under_sprite_pixel(x, y, sprite, column, row, cx, cy) {
                assert forall|c: int|
                    column + 1 <= c < sprite.width() implies !#[trigger] after.under_sprite_pixel(
                    x,
                    y,
                    sprite,
                    c,
                    row,
                    cx,
                    cy,
                ) by {
                    assert(!self.under_sprite_pixel(x, y, sprite, c, row, cx, cy));
                }
            }
            assert forall|c: int|
                column <= c < sprite.width() && #[trigger] self.under_sprite_pixel(
                    x,
                    y,
                    sprite,
                    c,
                    row,
                    cx,
                    cy,
                ) implies self.draw_sprite_row(x, y, sprite, row, column).cell(cx, cy)
                == blend_word(
                sprite_color(sprite.spec_data(), sprite.width() as int, c, row),
                self.cell(cx, cy),
            ) by {
                if c > column {
                    assert(after.under_sprite_pixel(x, y, sprite, c, row, cx, cy));
                    assert(!self.under_sprite_pixel(x, y, sprite, column, row, cx, cy));
                }
            }
            if forall|c: int|
                column <= c < sprite.width() ==> !#[trigger] self.under_sprite_pixel(
                    x,
                    y,
                    sprite,
                    c,
                    row,
                    cx,
                    cy,
                ) {
                assert(!self.under_sprite_pixel(x, y, sprite, column, row, cx, cy));
                assert forall|c: int|
                    column + 1 <= c < sprite.width() implies !#[trigger] after.under_sprite_pixel(
                    x,
                    y,
                    sprite,
                    c,
                    row,
                    cx,
                    cy,
                ) by {
                    assert(!self.under_sprite_pixel(x, y, sprite, c, row, cx, cy));
                }
            }
        }
    }

    /// A sprite blends onto each cell under one of its pixels the colour of
    /// that pixel, once, and leaves every other cell as it is.
    pub proof fn lemma_draw_sprite_rows_cell(
        self,
        x: int,
        y: int,
        sprite: Sprite,
        row: int,
        cx: int,
        cy: int,
    )
        requires
            self.wf(),
            self.visible(cx, cy),
        ensures
            self.draw_sprite_rows(x, y, sprite, row).wf(),
            self.draw_sprite_rows(x, y, sprite, row).same_measures(self),
            forall|c: int, r: int|
                0 <= c < sprite.width() && row <= r < sprite.height()
                    && #[trigger] self.under_sprite_pixel(x, y, sprite, c, r, cx, cy)
                    ==> self.draw_sprite_rows(x, y, sprite, row).cell(cx, cy) == blend_word(
                    sprite_color(sprite.spec_data(), sprite.width() as int, c, r),
                    self.cell(cx, cy),
                ),
            (forall|c: int, r: int|
                0 <= c < sprite.width() && row <= r < sprite.height()
                    ==> !#[trigger] self.under_sprite_pixel(x, y, sprite, c, r, cx, cy))
                ==> self.draw_sprite_rows(x, y, sprite, row).cell(cx, cy) == self.cell(cx, cy),
        decreases sprite.height() - row,
    {
        if row < sprite.height() {
            let after = self.draw_sprite_row(x, y, sprite, row, 0);
            let done = self.draw_sprite_rows(x, y, sprite, row);
            self.lemma_draw_sprite_row_cell(x, y, sprite, row, 0, cx, cy);
            after.lemma_draw_sprite_rows_cell(x, y, sprite, row + 1, cx, cy);
            assert forall|c: int, r: int|
                (#[trigger] after.under_sprite_pixel(x, y, sprite, c, r, cx, cy))
                    == self.under_sprite_pixel(x, y, sprite, c, r, cx, cy) by {}
            // A cell lies under one pixel at most.
            assert forall|c: int, r: int, c2: int, r2: int|
                #[trigger] self.under_sprite_pixel(x, y, sprite, c, r, cx, cy)
                    && #[trigger] self.under_sprite_pixel(
                    x,
                    y,
                    sprite,
                    c2,
                    r2,
                    cx,
                    cy,
                ) implies c == c2 && r == r2 by {
                self.lemma_one_pixel_for_each_cell(
                    (x + c, y + (sprite.height() - r)),
                    (x + c2, y + (sprite.height() - r2)),
                    cx,
                    cy,
                );
            }
            assert forall|c: int, r: int|
                0 <= c < sprite.width() && row <= r < sprite.height()
                    && #[trigger] self.under_sprite_pixel(
                    x,
                    y,
                    sprite,
                    c,
                    r,
                    cx,
                    cy,
                ) implies done.cell(cx, cy) == blend_word(
                sprite_color(sprite.spec_data(), sprite.width() as int, c, r),
                self.cell(cx, cy),
            ) by {
                if r == row {
                    assert forall|c2: int, r2: int|
                        0 <= c2 < sprite.width() && row + 1 <= r2 < sprite.height()
                            implies !#[trigger] after.under_sprite_pixel(
                        x,
                        y,
                        sprite,
                        c2,
                        r2,
                        cx,
                        cy,
                    ) by {
                        if self.under_sprite_pixel(x, y, sprite, c2, r2, cx, cy) {
                            assert(c == c2 && r == r2);
                        }
                    }
                } else {
                    assert forall|c2: int| 0 <= c2 < sprite.width() implies !#[trigger] self.under_sprite_pixel(
                        x,
                        y,
                        sprite,
                        c2,
                        row,
                        cx,
                        cy,
                    ) by {
                        if self.under_sprite_pixel(x, y, sprite, c2, row, cx, cy) {
                            assert(c == c2 && r == row);
                        }
                    }
                    assert(after.under_sprite_pixel(x, y, sprite, c, r, cx, cy));
                }
            }
            if forall|c: int, r: int|
                0 <= c < sprite.width() && row <= r < sprite.height()
                    ==> !#[trigger] self.under_sprite_pixel(x, y, sprite, c, r, cx, cy) {
                assert forall|c2: int| 0 <= c2 < sprite.width() implies !#[trigger] self.under_sprite_pixel(
                    x,
                    y,
                    sprite,
                    c2,
                    row,
                    cx,
                    cy,
                ) by {}
                assert forall|c2: int, r2: int|
                    0 <= c2 < sprite.width() && row + 1 <= r2 < sprite.height()
                        implies !#[trigger] after.under_sprite_pixel(
                    x,
                    y,
                    sprite,
                    c2,
                    r2,
                    cx,
                    cy,
                ) by {
                    assert(!self.under_sprite_pixel(x, y, sprite, c2, r2, cx, cy));
                }
            }
        }
    }

    /// The cell `(cx, cy)` is the one onto which the glyph cell in the
    /// column `column` of the row `row` is blended.
    pub open spec fn under_glyph_cell(
        glyph: RasterizedFont,
        x: int,
        y: int,
        column: int,
        row: int,
        cx: int,
        cy: int,
    ) -> bool {
        cx == x + glyph.xmin + column && cy == y + glyph.ymin + (glyph.height - row)
    }

    /// A row of a glyph blends onto the cell of each of its cells the text
    /// colour with the coverage of that cell, once, and leaves every other
    /// cell as it is.
    pub proof fn lemma_draw_glyph_row_cell(
        self,
        glyph: RasterizedFont,
        x: int,
        y: int,
        color: Color,
        row: int,
        column: int,
        cx: int,
        cy: int,
    )
        requires
            self.wf(),
            self.visible(cx, cy),
        ensures
            self.draw_glyph_row(glyph, x, y, color, row, column).wf(),
            self.draw_glyph_row(glyph, x, y, color, row, column).same_measures(self),
            forall|c: int|
                column <= c < glyph.width && #[trigger] Self::under_glyph_cell(
                    glyph,
                    x,
                    y,
                    c,
                    row,
                    cx,
                    cy,
                ) ==> self.draw_glyph_row(glyph, x, y, color, row, column).cell(cx, cy)
                    == blend_word(glyph_color(glyph, c, row, color), self.cell(cx, cy)),
            (forall|c: int|
                column <= c < glyph.width ==> !#[trigger] Self::under_glyph_cell(
                    glyph,
                    x,
                    y,
                    c,
                    row,
                    cx,
                    cy,
                )) ==> self.draw_glyph_row(glyph, x, y, color, row, column).cell(cx, cy)
                == self.cell(cx, cy),
        decreases glyph.width - column,
    {
        if column < glyph.width {
            let after = self.put_pixel(
                x + glyph.xmin + column,
                y + glyph.ymin + (glyph.height - row),
                glyph_color(glyph, column, row, color),
            );
            self.lemma_put_pixel_cell(
                x + glyph.xmin + column,
                y + glyph.ymin + (glyph.height - row),
                glyph_color(glyph, column, row, color),
                cx,
                cy,
            );
            after.lemma_draw_glyph_row_cell(glyph, x, y, color, row, column + 1, cx, cy);
            assert(Self::under_glyph_cell(glyph, x, y, column, row, cx, cy) <==> (cx == x
                + glyph.xmin + column && cy == y + glyph.ymin + (glyph.height - row)));
            assert forall|c: int|
                column <= c < glyph.width && #[trigger] Self::under_glyph_cell(
                    glyph,
                    x,
                    y,
                    c,
                    row,
                    cx,
                    cy,
                ) implies self.draw_glyph_row(glyph, x, y, color, row, column).cell(cx, cy)
                == blend_word(glyph_color(glyph, c, row, color), self.cell(cx, cy)) by {
                if c == column {
                    assert forall|c2: int|
                        column + 1 <= c2 < glyph.width implies !#[trigger] Self::under_glyph_cell(
                        glyph,
                        x,
                        y,
                        c2,
                        row,
                        cx,
                        cy,
                    ) by {}
                }
            }
        }
    }

    /// A glyph blends onto the cell of each of its cells the text colour
    /// with the coverage of that cell, once, and leaves every other cell as
    /// it is.
    pub proof fn lemma_draw_glyph_rows_cell(
        self,
        glyph: RasterizedFont,
        x: int,
        y: int,
        color: Color,
        row: int,
        cx: int,
        cy: int,
    )
        requires
            self.wf(),
            self.visible(cx, cy),
        ensures
            self.draw_glyph_rows(glyph, x, y, color, row).wf(),
            self.draw_glyph_rows(glyph, x, y, color, row).same_measures(self),
            forall|c: int, r: int|
                0 <= c < glyph.width && row <= r < glyph.height
                    && #[trigger] Self::under_glyph_cell(glyph, x, y, c, r, cx, cy)
                    ==> self.draw_glyph_rows(glyph, x, y, color, row).cell(cx, cy) == blend_word(
                    glyph_color(glyph, c, r, color),
                    self.cell(cx, cy),
                ),
            (forall|c: int, r: int|
                0 <= c < glyph.width && row <= r < glyph.height ==> !#[trigger] Self::under_glyph_cell(
                    glyph,
                    x,
                    y,
                    c,
                    r,
                    cx,
                    cy,
                )) ==> self.draw_glyph_rows(glyph, x, y, color, row).cell(cx, cy) == self.cell(
                cx,
                cy,
            ),
        decreases glyph.height - row,
    {
        if row < glyph.height {
            let after = self.draw_glyph_row(glyph, x, y, color, row, 0);
            let done = self.draw_glyph_rows(glyph, x, y, color, row);
            self.lemma_draw_glyph_row_cell(glyph, x, y, color, row, 0, cx, cy);
            after.lemma_draw_glyph_rows_cell(glyph, x, y, color, row + 1, cx, cy);
            assert forall|c: int, r: int|
                0 <= c < glyph.width && row <= r < glyph.height
                    && #[trigger] Self::under_glyph_cell(
                    glyph,
                    x,
                    y,
                    c,
                    r,
                    cx,
                    cy,
                ) implies done.cell(cx, cy) == blend_word(
                glyph_color(glyph, c, r, color),
                self.cell(cx, cy),
            ) by {
                if r == row {
                    assert forall|c2: int, r2: int|
                        0 <= c2 < glyph.width && row + 1 <= r2 < glyph.height
                            implies !#[trigger] Self::under_glyph_cell(
                        glyph,
                        x,
                        y,
                        c2,
                        r2,
                        cx,
                        cy,
                    ) by {}
                } else {
                    assert forall|c2: int| 0 <= c2 < glyph.width implies !#[trigger] Self::under_glyph_cell(
                        glyph,
                        x,
                        y,
                        c2,
                        row,
                        cx,
                        cy,
                    ) by {}
                }
            }
            if forall|c: int, r: int|
                0 <= c < glyph.width && row <= r < glyph.height ==> !#[trigger] Self::under_glyph_cell(
                    glyph,
                    x,
                    y,
                    c,
                    r,
                    cx,
                    cy,
                ) {
                assert forall|c2: int| 0 <= c2 < glyph.width implies !#[trigger] Self::under_glyph_cell(
                    glyph,
                    x,
                    y,
                    c2,
                    row,
                    cx,
                    cy,
                ) by {}
            }
        }
    }

    /// Blending a fully opaque colour onto a cell leaves the packed colour
    /// in it.
    pub proof fn lemma_blend_word_opaque(color: Color, word: u32)
        requires
            color.a() == 255,
        ensures
            blend_word(color, word) == color.argb(),
    {
        Color::lemma_blend_opaque_source(color, Color::from_argb(word));
    }

    /// Blending a fully transparent colour onto an opaque cell leaves the
    /// cell as it is.
    pub proof fn lemma_blend_word_transparent(color: Color, word: u32)
        requires
            color.a() == 0,
            Color::from_argb(word).a() == 255,
        ensures
            blend_word(color, word) == word,
    {
        Color::lemma_blend_transparent_source(color, Color::from_argb(word));
        Color::lemma_argb_of_from_argb(word);
    }

    /// A triangle whose corners lie on one row is left undrawn.
    pub proof fn lemma_flat_triangle(
        self,
        x0: int,
        x1: int,
        x2: int,
        y: int,
        color: Color,
    )
        ensures
            self.draw_filled_triangle(x0, y, x1, y, x2, y, color) == self,
    {
    }
}

} // verus!
