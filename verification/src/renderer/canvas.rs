//! The picture as a mathematical value, and what each drawing operation
//! makes of it.

use vstd::prelude::*;

use crate::color::Color;
use crate::engine::sprite::Sprite;
use crate::font::RasterizedFont;
use crate::renderer::bresenham::{line_points, span};
use crate::renderer::circle::{circle_points, disc_chords};
use crate::renderer::triangle::{saturate, sort_by_y, spans_between, split_x};

verus! {

/// The word that a pixel holds after `src` was blended onto the word `dst`.
pub open spec fn blend_word(src: Color, dst: u32) -> u32 {
    Color::linear_blend(src, Color::from_argb(dst)).argb()
}

/// The coordinate in `[0, limit)` that is nearest to `v`, and 0 where there
/// is none.
pub open spec fn clamp_coordinate(v: int, limit: int) -> int {
    if v < 0 || limit <= 0 {
        0
    } else if v >= limit {
        limit - 1
    } else {
        v
    }
}

/// The coordinate in `[0, limit]` that is nearest to `v`.
pub open spec fn clamp_inclusive(v: int, limit: int) -> int {
    if v < 0 {
        0
    } else if v > limit {
        limit
    } else {
        v
    }
}

/// The smaller of two coordinates.
pub open spec fn lower(a: int, b: int) -> int {
    if a <= b {
        a
    } else {
        b
    }
}

/// The colour of the sprite pixel in the column `column` of the row `row`,
/// rows counted from the top: its four bytes as red, green, blue and alpha.
pub open spec fn sprite_color(data: Seq<u8>, width: int, column: int, row: int) -> Color {
    Color::rgba(
        data[(row * width + column) * 4],
        data[(row * width + column) * 4 + 1],
        data[(row * width + column) * 4 + 2],
        data[(row * width + column) * 4 + 3],
    )
}

/// The text colour with the coverage of a glyph cell as its alpha.
pub open spec fn glyph_color(glyph: RasterizedFont, column: int, row: int, color: Color) -> Color {
    Color::rgba(color.r(), color.g(), color.b(), glyph.data@[row * glyph.width + column])
}

/// The sides of the closed polygon through `vertices`: from each vertex to
/// the next, and from the last back to the first.
pub open spec fn polygon_sides(vertices: Seq<(i32, i32)>) -> Seq<(int, int, int, int)> {
    Seq::new(
        vertices.len(),
        |i: int|
            (
                vertices[i].0 as int,
                vertices[i].1 as int,
                vertices[(i + 1) % (vertices.len() as int)].0 as int,
                vertices[(i + 1) % (vertices.len() as int)].1 as int,
            ),
    )
}

/// A picture: `width * height` packed words in rows from the top, and the
/// size in cells of the block that one logical pixel covers.
#[verifier::ext_equal]
pub struct Canvas {
    pub pixels: Seq<u32>,
    pub width: int,
    pub height: int,
    pub pixel_width: int,
    pub pixel_height: int,
}

impl Canvas {
    /// There is one word for each cell.
    pub open spec fn wf(self) -> bool {
        &&& 0 <= self.width
        &&& 0 <= self.height
        &&& 0 <= self.pixel_width
        &&& 0 <= self.pixel_height
        &&& self.pixels.len() == self.width * self.height
    }

    /// The cell `(x, y)` exists. Drawing counts `y` upwards and the store
    /// counts rows downwards: `y` stands for the row `height - y`, so that
    /// the heights from 1 to `height` are in the picture and the height 0
    /// lies just below it.
    pub open spec fn visible(self, x: int, y: int) -> bool {
        0 <= x < self.width && 0 <= self.height - y < self.height
    }

    /// Where the store keeps the cell `(x, y)`.
    pub open spec fn index_of(self, x: int, y: int) -> int {
        (self.height - y) * self.width + x
    }

    /// The picture with other words and the same measures.
    pub open spec fn with_pixels(self, pixels: Seq<u32>) -> Canvas {
        Canvas {
            pixels,
            width: self.width,
            height: self.height,
            pixel_width: self.pixel_width,
            pixel_height: self.pixel_height,
        }
    }

    /// Every cell holds the packed `color`.
    pub open spec fn clear(self, color: Color) -> Canvas {
        self.with_pixels(Seq::new(self.pixels.len(), |i: int| color.argb()))
    }

    /// `color` blended onto the cell `(x, y)`; nothing where no such cell
    /// exists.
    pub open spec fn put_pixel(self, x: int, y: int, color: Color) -> Canvas {
        if self.visible(x, y) {
            self.with_pixels(
                self.pixels.update(
                    self.index_of(x, y),
                    blend_word(color, self.pixels[self.index_of(x, y)]),
                ),
            )
        } else {
            self
        }
    }

    /// `color` blended onto the `n` cells from `(x, y)` to the right.
    pub open spec fn put_row(self, x: int, y: int, n: int, color: Color) -> Canvas
        decreases n,
    {
        if n <= 0 {
            self
        } else {
            self.put_pixel(x, y, color).put_row(x + 1, y, n - 1, color)
        }
    }

    /// `color` blended onto `rows` rows of `n` cells, the first from
    /// `(x, y)` to the right, each further one above the one before.
    pub open spec fn put_block(self, x: int, y: int, n: int, rows: int, color: Color) -> Canvas
        decreases rows,
    {
        if rows <= 0 {
            self
        } else {
            self.put_row(x, y, n, color).put_block(x, y + 1, n, rows - 1, color)
        }
    }

    /// `color` blended onto the block of cells that the logical pixel
    /// `(x, y)` covers: columns `x * pixel_width` up to
    /// `(x + 1) * pixel_width`, rows `y * pixel_height` up to
    /// `(y + 1) * pixel_height`.
    pub open spec fn draw(self, x: int, y: int, color: Color) -> Canvas {
        self.put_block(
            x * self.pixel_width,
            y * self.pixel_height,
            self.pixel_width,
            self.pixel_height,
            color,
        )
    }

    /// The logical pixels `points` drawn one after the other.
    pub open spec fn draw_points(self, points: Seq<(int, int)>, color: Color) -> Canvas
        decreases points.len(),
    {
        if points.len() == 0 {
            self
        } else {
            self.draw(points[0].0, points[0].1, color).draw_points(points.skip(1), color)
        }
    }

    /// The logical pixels of the line between the two end points, after
    /// each end point was moved to the nearest one with `0 <= x < width` and
    /// `0 <= y < height`.
    pub open spec fn draw_line(self, x0: int, y0: int, x1: int, y1: int, color: Color) -> Canvas {
        self.draw_points(
            line_points(
                clamp_coordinate(x0, self.width),
                clamp_coordinate(y0, self.height),
                clamp_coordinate(x1, self.width),
                clamp_coordinate(y1, self.height),
            ),
            color,
        )
    }

    /// The three sides of a triangle, in the order of its corners.
    pub open spec fn draw_wireframe_triangle(
        self,
        x0: int,
        y0: int,
        x1: int,
        y1: int,
        x2: int,
        y2: int,
        color: Color,
    ) -> Canvas {
        self.draw_line(x0, y0, x1, y1, color).draw_line(x1, y1, x2, y2, color).draw_line(
            x2,
            y2,
            x0,
            y0,
            color,
        )
    }

    /// The four sides of the box between `(x, y)` and
    /// `(x + width, y + height)`: bottom, left, right, top.
    pub open spec fn draw_wireframe_rectangle(
        self,
        x: int,
        y: int,
        width: int,
        height: int,
        color: Color,
    ) -> Canvas {
        self.draw_line(x, y, x + width, y, color).draw_line(x, y, x, y + height, color).draw_line(
            x + width,
            y,
            x + width,
            y + height,
            color,
        ).draw_line(x, y + height, x + width, y + height, color)
    }

    /// The `n` logical pixels from `(x, y)` to the right.
    pub open spec fn draw_row(self, x: int, y: int, n: int, color: Color) -> Canvas
        decreases n,
    {
        if n <= 0 {
            self
        } else {
            self.draw(x, y, color).draw_row(x + 1, y, n - 1, color)
        }
    }

    /// `rows` rows of `n` logical pixels, the first from `(x, y)` to the
    /// right, each further one above the one before.
    pub open spec fn draw_block(self, x: int, y: int, n: int, rows: int, color: Color) -> Canvas
        decreases rows,
    {
        if rows <= 0 {
            self
        } else {
            self.draw_row(x, y, n, color).draw_block(x, y + 1, n, rows - 1, color)
        }
    }

    /// Every logical pixel of the box between `(x, y)` and
    /// `(x + width, y + height)`, both corners included, after each corner
    /// was moved to the nearest point with `0 <= x <= self.width` and
    /// `0 <= y <= self.height`. Width and height may be negative.
    pub open spec fn draw_filled_rectangle(
        self,
        x: int,
        y: int,
        width: int,
        height: int,
        color: Color,
    ) -> Canvas {
        let xa = clamp_inclusive(x, self.width);
        let xb = clamp_inclusive(x + width, self.width);
        let ya = clamp_inclusive(y, self.height);
        let yb = clamp_inclusive(y + height, self.height);
        self.draw_block(lower(xa, xb), lower(ya, yb), span(xa, xb) + 1, span(ya, yb) + 1, color)
    }

    /// Every cell of the box between the corners `(from_x, from_y)` and
    /// `(to_x, to_y)`, both included, after each corner was moved to the
    /// nearest point with `0 <= x <= self.width` and `0 <= y <= self.height`.
    /// The corners may come in any order.
    pub open spec fn fill_rect(
        self,
        from_x: int,
        from_y: int,
        to_x: int,
        to_y: int,
        color: Color,
    ) -> Canvas {
        let xa = clamp_inclusive(from_x, self.width);
        let xb = clamp_inclusive(to_x, self.width);
        let ya = clamp_inclusive(from_y, self.height);
        let yb = clamp_inclusive(to_y, self.height);
        self.put_block(lower(xa, xb), lower(ya, yb), span(xa, xb) + 1, span(ya, yb) + 1, color)
    }

    /// As `draw_filled_rectangle`, on single cells in place of logical
    /// pixels.
    pub open spec fn draw_filled_rectangle_unscaled(
        self,
        x: int,
        y: int,
        width: int,
        height: int,
        color: Color,
    ) -> Canvas {
        self.fill_rect(x, y, x + width, y + height, color)
    }

    /// The lines `segments`, each given as `(x0, y0, x1, y1)`, drawn one
    /// after the other.
    pub open spec fn draw_segments(
        self,
        segments: Seq<(int, int, int, int)>,
        color: Color,
    ) -> Canvas
        decreases segments.len(),
    {
        if segments.len() == 0 {
            self
        } else {
            self.draw_line(
                segments[0].0,
                segments[0].1,
                segments[0].2,
                segments[0].3,
                color,
            ).draw_segments(segments.skip(1), color)
        }
    }

    /// The outline of the circle about `(x, y)`: each of its points drawn,
    /// in the order of `circle_points`.
    pub open spec fn draw_wireframe_circle(self, x: int, y: int, radius: int, color: Color) -> Canvas {
        self.draw_points(circle_points(x, y, radius), color)
    }

    /// The disc about `(x, y)`: each of its chords drawn as a line, in the
    /// order of `disc_chords`.
    pub open spec fn draw_filled_circle(self, x: int, y: int, radius: int, color: Color) -> Canvas {
        self.draw_segments(disc_chords(x, y, radius), color)
    }

    /// The rows between two edges that climb from the row `bottom` to the
    /// row `top`, the row `top` left out: for each row the line from the
    /// point where the left edge enters it to the point where the right edge
    /// does.
    pub open spec fn fill_between_edges(
        self,
        left_x: int,
        right_x: int,
        bottom: int,
        left_end: int,
        right_end: int,
        top: int,
        color: Color,
    ) -> Canvas {
        self.draw_segments(
            spans_between(left_x, right_x, bottom, left_end, right_end, top),
            color,
        )
    }

    /// The triangle with the three corners given, filled row by row.
    ///
    /// The corners are put in order of height, lowest first. A triangle
    /// whose corners all lie on one row has no scan row, and nothing is
    /// drawn. Otherwise the long edge, from the lowest corner to the
    /// highest, is split at the height of the middle corner; coordinates
    /// below zero count as zero; and two parts are filled: first the rows
    /// from the middle corner up to the highest, between the edges that lead
    /// from the middle corner and from the split point to the highest
    /// corner, then the rows from the lowest corner up to the middle one,
    /// between the edges that lead from the lowest corner to the middle
    /// corner and to the split point. The row of the highest corner is not
    /// drawn.
    pub open spec fn draw_filled_triangle(
        self,
        x0: int,
        y0: int,
        x1: int,
        y1: int,
        x2: int,
        y2: int,
        color: Color,
    ) -> Canvas {
        let v = sort_by_y((x0, y0), (x1, y1), (x2, y2));
        if v.2.1 == v.0.1 {
            self
        } else {
            let x3 = saturate(split_x(v.0.0, v.0.1, v.1.1, v.2.0, v.2.1));
            let low_x = saturate(v.0.0);
            let low_y = saturate(v.0.1);
            let mid_x = saturate(v.1.0);
            let mid_y = saturate(v.1.1);
            let high_x = saturate(v.2.0);
            let high_y = saturate(v.2.1);
            self.fill_between_edges(
                mid_x,
                x3,
                mid_y,
                high_x,
                high_x,
                high_y,
                color,
            ).fill_between_edges(low_x, low_x, low_y, mid_x, x3, mid_y, color)
        }
    }

    /// The outline of the closed polygon through `vertices`.
    pub open spec fn draw_wireframe_model(self, vertices: Seq<(i32, i32)>, color: Color) -> Canvas {
        self.draw_segments(polygon_sides(vertices), color)
    }

    /// The pixels of one sprite row from the column `column` on, as logical
    /// pixels: the pixel in column `c` of row `row` is drawn at
    /// `(x + c, y + height - row)`.
    pub open spec fn draw_sprite_row(
        self,
        x: int,
        y: int,
        sprite: Sprite,
        row: int,
        column: int,
    ) -> Canvas
        decreases sprite.width() - column,
    {
        if column >= sprite.width() {
            self
        } else {
            self.draw(
                x + column,
                y + (sprite.height() - row),
                sprite_color(sprite.spec_data(), sprite.width() as int, column, row),
            ).draw_sprite_row(x, y, sprite, row, column + 1)
        }
    }

    /// The rows of a sprite from the row `row` on, each from left to right.
    pub open spec fn draw_sprite_rows(self, x: int, y: int, sprite: Sprite, row: int) -> Canvas
        decreases sprite.height() - row,
    {
        if row >= sprite.height() {
            self
        } else {
            self.draw_sprite_row(x, y, sprite, row, 0).draw_sprite_rows(x, y, sprite, row + 1)
        }
    }

    /// The sprite with its colours, its top row at the height
    /// `y + sprite.height()` and its left column at `x`.
    pub open spec fn draw_sprite(self, x: int, y: int, sprite: Sprite) -> Canvas {
        self.draw_sprite_rows(x, y, sprite, 0)
    }

    /// The cells of one glyph row from the column `column` on: the cell in
    /// column `c` of row `row` is blended at
    /// `(x + xmin + c, y + ymin + height - row)` with its coverage as alpha.
    pub open spec fn draw_glyph_row(
        self,
        glyph: RasterizedFont,
        x: int,
        y: int,
        color: Color,
        row: int,
        column: int,
    ) -> Canvas
        decreases glyph.width - column,
    {
        if column >= glyph.width {
            self
        } else {
            self.put_pixel(
                x + glyph.xmin + column,
                y + glyph.ymin + (glyph.height - row),
                glyph_color(glyph, column, row, color),
            ).draw_glyph_row(glyph, x, y, color, row, column + 1)
        }
    }

    /// The rows of a glyph from the row `row` on.
    pub open spec fn draw_glyph_rows(
        self,
        glyph: RasterizedFont,
        x: int,
        y: int,
        color: Color,
        row: int,
    ) -> Canvas
        decreases glyph.height - row,
    {
        if row >= glyph.height {
            self
        } else {
            self.draw_glyph_row(glyph, x, y, color, row, 0).draw_glyph_rows(
                glyph,
                x,
                y,
                color,
                row + 1,
            )
        }
    }

    /// The glyphs of a text from the pen position `(x, y)` on: each glyph is
    /// composited at the pen position, and the pen moves on by the glyph's
    /// advance.
    pub open spec fn draw_string(
        self,
        glyphs: Seq<RasterizedFont>,
        x: int,
        y: int,
        color: Color,
    ) -> Canvas
        decreases glyphs.len(),
    {
        if glyphs.len() == 0 {
            self
        } else {
            self.draw_glyph_rows(glyphs[0], x, y, color, 0).draw_string(
                glyphs.skip(1),
                x + glyphs[0].advance_width,
                y,
                color,
            )
        }
    }

    /// Drawing a sequence of points is drawing its first part, then the
    /// rest.
    pub proof fn lemma_draw_points_add(
        self,
        first: Seq<(int, int)>,
        rest: Seq<(int, int)>,
        color: Color,
    )
        ensures
            self.draw_points(first.add(rest), color) == self.draw_points(first, color).draw_points(
                rest,
                color,
            ),
        decreases first.len(),
    {
        if first.len() == 0 {
            assert(first.add(rest) =~= rest);
        } else {
            assert(first.add(rest).skip(1) =~= first.skip(1).add(rest));
            self.draw(first[0].0, first[0].1, color).lemma_draw_points_add(
                first.skip(1),
                rest,
                color,
            );
        }
    }

    /// Drawing a sequence of lines is drawing its first part, then the
    /// rest.
    pub proof fn lemma_draw_segments_add(
        self,
        first: Seq<(int, int, int, int)>,
        rest: Seq<(int, int, int, int)>,
        color: Color,
    )
        ensures
            self.draw_segments(first.add(rest), color) == self.draw_segments(
                first,
                color,
            ).draw_segments(rest, color),
        decreases first.len(),
    {
        if first.len() == 0 {
            assert(first.add(rest) =~= rest);
        } else {
            assert(first.add(rest).skip(1) =~= first.skip(1).add(rest));
            self.draw_line(
                first[0].0,
                first[0].1,
                first[0].2,
                first[0].3,
                color,
            ).lemma_draw_segments_add(first.skip(1), rest, color);
        }
    }

    /// Eight points drawn in a row, then the rest.
    pub proof fn lemma_draw_points_eight(
        self,
        p: Seq<(int, int)>,
        rest: Seq<(int, int)>,
        color: Color,
    )
        requires
            p.len() == 8,
        ensures
            self.draw_points(p.add(rest), color) == self.draw(p[0].0, p[0].1, color).draw(
                p[1].0,
                p[1].1,
                color,
            ).draw(p[2].0, p[2].1, color).draw(p[3].0, p[3].1, color).draw(
                p[4].0,
                p[4].1,
                color,
            ).draw(p[5].0, p[5].1, color).draw(p[6].0, p[6].1, color).draw(
                p[7].0,
                p[7].1,
                color,
            ).draw_points(rest, color),
    {
        self.lemma_draw_points_add(p, rest, color);
        reveal_with_fuel(Canvas::draw_points, 9);
        assert(p.skip(1).skip(1).skip(1).skip(1).skip(1).skip(1).skip(1).skip(1).len() == 0);
    }

    /// Four lines drawn in a row, then the rest.
    pub proof fn lemma_draw_segments_four(
        self,
        s: Seq<(int, int, int, int)>,
        rest: Seq<(int, int, int, int)>,
        color: Color,
    )
        requires
            s.len() == 4,
        ensures
            self.draw_segments(s.add(rest), color) == self.draw_line(
                s[0].0,
                s[0].1,
                s[0].2,
                s[0].3,
                color,
            ).draw_line(s[1].0, s[1].1, s[1].2, s[1].3, color).draw_line(
                s[2].0,
                s[2].1,
                s[2].2,
                s[2].3,
                color,
            ).draw_line(s[3].0, s[3].1, s[3].2, s[3].3, color).draw_segments(rest, color),
    {
        self.lemma_draw_segments_add(s, rest, color);
        reveal_with_fuel(Canvas::draw_segments, 5);
        assert(s.skip(1).skip(1).skip(1).skip(1).len() == 0);
    }
}

} // verus!
