//! The renderer: every shape ends in blended writes into one frame buffer.

use vstd::prelude::*;

use crate::color::Color;
use crate::engine::sprite::Sprite;
use crate::font::RasterizedFont;
use crate::platform::framebuffer::FrameBuffer;
use crate::renderer::bresenham::{lemma_line_points, BresenhamLine};
use crate::renderer::canvas::{clamp_coordinate, clamp_inclusive, polygon_sides, Canvas};
use crate::renderer::circle::{
    chords, mirrored, next_decision, next_y, octant_chords, octant_points,
};
use crate::renderer::triangle::{
    climbs, first_at_or_above, lemma_line_climbs, lemma_tracks_next, saturate, scan_rows,
    sort_by_y, split_at, tracks,
};

verus! {

/// The largest distance from zero of a coordinate that a shape computes.
pub open spec fn reach() -> int {
    0xFFFF_FFFF
}

fn clamp_to(v: i64, limit: usize) -> (clamped: u32)
    requires
        v <= reach(),
    ensures
        clamped == clamp_coordinate(v as int, limit as int),
{
    if v < 0 || limit == 0 {
        0
    } else if v as u64 >= limit as u64 {
        (limit - 1) as u32
    } else {
        v as u32
    }
}

fn clamp_within(v: i64, limit: usize) -> (clamped: i64)
    requires
        v <= reach(),
    ensures
        clamped == clamp_inclusive(v as int, limit as int),
{
    if v < 0 {
        0
    } else if v as u64 > limit as u64 {
        limit as i64
    } else {
        v
    }
}

/// What the circle loops keep true of their step: the offsets stay within
/// the radius, and the decision within a few radii of zero.
spec fn octant_in_range(x0: int, y0: int, d: int, radius: int) -> bool {
    &&& 0 <= x0
    &&& y0 <= radius
    &&& radius >= 0 ==> {
        &&& x0 <= y0 + 2
        &&& -4 * radius <= d
        &&& d + 9 * (y0 - x0) <= 13 * radius + 20
    }
}

fn saturate_to_u32(v: i64) -> (saturated: u32)
    requires
        v <= reach(),
    ensures
        saturated == saturate(v as int),
{
    if v < 0 {
        0
    } else {
        v as u32
    }
}

/// Walks on until a point above the row `row` comes, and hands that point
/// out; `None` if the walk ends before.
fn next_above(line: &mut BresenhamLine, row: u32) -> (found: Option<(u32, u32)>)
    requires
        old(line).wf(),
    ensures
        final(line).wf(),
        found is Some <==> first_at_or_above(old(line)@, row + 1) < old(line)@.len(),
        found matches Some(p) ==> {
            &&& old(line)@[first_at_or_above(old(line)@, row + 1)] == (p.0 as int, p.1 as int)
            &&& final(line)@ == old(line)@.skip(first_at_or_above(old(line)@, row + 1) + 1)
        },
        found is None ==> final(line)@.len() == 0,
{
    let ghost mut taken: int = 0;
    proof {
        assert(line@.skip(0) =~= line@);
    }
    loop
        invariant
            line.wf(),
            0 <= taken <= old(line)@.len(),
            line@ == old(line)@.skip(taken),
            first_at_or_above(old(line)@, row + 1) == taken + first_at_or_above(line@, row + 1),
        decreases line@.len(),
    {
        let ghost before = line@;
        match line.next() {
            None => {
                return None;
            },
            Some((x, y)) => {
                proof {
                    assert(before[0] == old(line)@[taken]);
                    assert(line@ =~= old(line)@.skip(taken + 1));
                }
                if y > row {
                    return Some((x, y));
                }
                proof {
                    taken = taken + 1;
                }
            },
        }
    }
}

/// Draws into a frame buffer of `width * height` cells, with logical pixels
/// of `pixel_width * pixel_height` cells each.
pub struct Renderer {
    width: usize,
    height: usize,
    pixel_width: usize,
    pixel_height: usize,
    buffer: FrameBuffer,
}

impl View for Renderer {
    type V = Canvas;

    closed spec fn view(&self) -> Canvas {
        Canvas {
            pixels: self.buffer@,
            width: self.width as int,
            height: self.height as int,
            pixel_width: self.pixel_width as int,
            pixel_height: self.pixel_height as int,
        }
    }
}

impl Renderer {
    /// The buffer has one word for each cell.
    pub open spec fn wf(&self) -> bool {
        self@.wf()
    }

    /// A renderer for a buffer of `width * height` cells.
    pub fn new(
        width: usize,
        height: usize,
        pixel_width: usize,
        pixel_height: usize,
        buffer: FrameBuffer,
    ) -> (renderer: Self)
        requires
            buffer@.len() == width * height,
        ensures
            renderer.wf(),
            renderer@ == (Canvas {
                pixels: buffer@,
                width: width as int,
                height: height as int,
                pixel_width: pixel_width as int,
                pixel_height: pixel_height as int,
            }),
    {
        Self { width, height, pixel_width, pixel_height, buffer }
    }

    /// The width of the buffer in cells.
    pub fn width(&self) -> (width: usize)
        ensures
            width == self@.width,
    {
        self.width
    }

    /// The height of the buffer in cells.
    pub fn height(&self) -> (height: usize)
        ensures
            height == self@.height,
    {
        self.height
    }

    /// The frame buffer as drawn so far.
    pub fn buffer(&self) -> (buffer: &FrameBuffer)
        ensures
            buffer@ == self@.pixels,
    {
        &self.buffer
    }

    fn put_pixel(&mut self, x: i128, y: i128, color: Color)
        requires
            old(self).wf(),
        ensures
            final(self).wf(),
            final(self)@ == old(self)@.put_pixel(x as int, y as int, color),
    {
        if x >= 0 && x < self.width as i128 && y > 0 && y <= self.height as i128 {
            let row: usize = (self.height as i128 - y) as usize;
            let column: usize = x as usize;
            assert(self.buffer.data.len() == self.width * self.height);
            assert(0 <= row * self.width && row * self.width + column < self.width * self.height)
                by (nonlinear_arith)
                requires
                    row < self.height,
                    column < self.width,
            ;
            let buffer_idx: usize = row * self.width + column;
            let dst = Color::from_argb(self.buffer.data[buffer_idx]);
            self.buffer.data.set(buffer_idx, Color::linear_blend(color, dst).to_argb());
            assert(self@ =~= old(self)@.put_pixel(x as int, y as int, color));
        }
    }

    /// The logical pixel `(x, y)`, for coordinates that shapes compute
    /// beyond the range of the public ones.
    fn draw_at(&mut self, x: i64, y: i64, color: Color)
        requires
            old(self).wf(),
            -0x2_0000_0000 <= x <= 0x2_0000_0000,
            -0x2_0000_0000 <= y <= 0x2_0000_0000,
        ensures
            final(self).wf(),
            final(self)@ == old(self)@.draw(x as int, y as int, color),
    {
        let pixel_width: usize = self.pixel_width;
        let pixel_height: usize = self.pixel_height;
        assert(-0x2_0000_0000 * 0x1_0000_0000_0000_0000 <= x * pixel_width <= 0x2_0000_0000
            * 0x1_0000_0000_0000_0000) by (nonlinear_arith)
            requires
                -0x2_0000_0000 <= x <= 0x2_0000_0000,
                0 <= pixel_width <= 0x1_0000_0000_0000_0000,
        ;
        assert(-0x2_0000_0000 * 0x1_0000_0000_0000_0000 <= y * pixel_height <= 0x2_0000_0000
            * 0x1_0000_0000_0000_0000) by (nonlinear_arith)
            requires
                -0x2_0000_0000 <= y <= 0x2_0000_0000,
                0 <= pixel_height <= 0x1_0000_0000_0000_0000,
        ;
        let left: i128 = x as i128 * pixel_width as i128;
        let bottom: i128 = y as i128 * pixel_height as i128;

        for pixel_y in 0..pixel_height
            invariant
                self.wf(),
                self.pixel_width == pixel_width,
                self.pixel_height == pixel_height,
                left == x * pixel_width,
                bottom == y * pixel_height,
                -0x2_0000_0000 * 0x1_0000_0000_0000_0000 <= left <= 0x2_0000_0000
                    * 0x1_0000_0000_0000_0000,
                -0x2_0000_0000 * 0x1_0000_0000_0000_0000 <= bottom <= 0x2_0000_0000
                    * 0x1_0000_0000_0000_0000,
                self@.put_block(
                    left as int,
                    bottom + pixel_y,
                    pixel_width as int,
                    pixel_height - pixel_y,
                    color,
                ) == old(self)@.draw(x as int, y as int, color),
        {
            let ghost row_start = self@;
            for pixel_x in 0..pixel_width
                invariant
                    self.wf(),
                    self.pixel_width == pixel_width,
                    self.pixel_height == pixel_height,
                    pixel_y < pixel_height,
                    -0x2_0000_0000 * 0x1_0000_0000_0000_0000 <= left <= 0x2_0000_0000
                        * 0x1_0000_0000_0000_0000,
                    -0x2_0000_0000 * 0x1_0000_0000_0000_0000 <= bottom <= 0x2_0000_0000
                        * 0x1_0000_0000_0000_0000,
                    self@.put_row(left + pixel_x, bottom + pixel_y, pixel_width - pixel_x, color)
                        == row_start.put_row(
                        left as int,
                        bottom + pixel_y,
                        pixel_width as int,
                        color,
                    ),
            {
                self.put_pixel(left + pixel_x as i128, bottom + pixel_y as i128, color);
            }
        }
    }

    /// Blends `color` onto the logical pixel `(x, y)`: onto every cell of
    /// its block that lies in the buffer.
    pub fn draw(&mut self, x: i32, y: i32, color: Color)
        requires
            old(self).wf(),
        ensures
            final(self).wf(),
            final(self)@ == old(self)@.draw(x as int, y as int, color),
    {
        self.draw_at(x as i64, y as i64, color);
    }

    fn draw_line_at(&mut self, x0: i64, y0: i64, x1: i64, y1: i64, color: Color)
        requires
            old(self).wf(),
            x0 <= reach(),
            y0 <= reach(),
            x1 <= reach(),
            y1 <= reach(),
        ensures
            final(self).wf(),
            final(self)@ == old(self)@.draw_line(
                x0 as int,
                y0 as int,
                x1 as int,
                y1 as int,
                color,
            ),
    {
        let x0: u32 = clamp_to(x0, self.width);
        let y0: u32 = clamp_to(y0, self.height);
        let x1: u32 = clamp_to(x1, self.width);
        let y1: u32 = clamp_to(y1, self.height);

        let mut line = BresenhamLine::new(x0, y0, x1, y1);
        let ghost whole = old(self)@.draw_points(line@, color);
        loop
            invariant
                self.wf(),
                line.wf(),
                self@.draw_points(line@, color) == whole,
            ensures
                self.wf(),
                self@ == whole,
            decreases line@.len(),
        {
            match line.next() {
                None => {
                    break ;
                },
                Some((x, y)) => {
                    self.draw_at(x as i64, y as i64, color);
                },
            }
        }
    }

    /// Draws the line from `(x0, y0)` to `(x1, y1)`.
    pub fn draw_line(&mut self, x0: i32, y0: i32, x1: i32, y1: i32, color: Color)
        requires
            old(self).wf(),
        ensures
            final(self).wf(),
            final(self)@ == old(self)@.draw_line(
                x0 as int,
                y0 as int,
                x1 as int,
                y1 as int,
                color,
            ),
    {
        self.draw_line_at(x0 as i64, y0 as i64, x1 as i64, y1 as i64, color);
    }

    /// Draws the outline of the triangle with the three corners given.
    pub fn draw_wireframe_triangle(
        &mut self,
        x0: i32,
        y0: i32,
        x1: i32,
        y1: i32,
        x2: i32,
        y2: i32,
        color: Color,
    )
        requires
            old(self).wf(),
        ensures
            final(self).wf(),
            final(self)@ == old(self)@.draw_wireframe_triangle(
                x0 as int,
                y0 as int,
                x1 as int,
                y1 as int,
                x2 as int,
                y2 as int,
                color,
            ),
    {
        self.draw_line(x0, y0, x1, y1, color);
        self.draw_line(x1, y1, x2, y2, color);
        self.draw_line(x2, y2, x0, y0, color);
    }

    /// Draws the outline of the box with the corner `(x, y)` and the given
    /// width and height.
    pub fn draw_wireframe_rectangle(
        &mut self,
        x: i32,
        y: i32,
        width: i32,
        height: i32,
        color: Color,
    )
        requires
            old(self).wf(),
        ensures
            final(self).wf(),
            final(self)@ == old(self)@.draw_wireframe_rectangle(
                x as int,
                y as int,
                width as int,
                height as int,
                color,
            ),
    {
        let x0: i64 = x as i64;
        let y0: i64 = y as i64;
        let x1: i64 = x as i64 + width as i64;
        let y1: i64 = y as i64 + height as i64;
        self.draw_line_at(x0, y0, x1, y0, color);
        self.draw_line_at(x0, y0, x0, y1, color);
        self.draw_line_at(x1, y0, x1, y1, color);
        self.draw_line_at(x0, y1, x1, y1, color);
    }

    /// Fills the box with the corner `(x, y)` and the given width and
    /// height, in logical pixels.
    pub fn draw_filled_rectangle(&mut self, x: i32, y: i32, width: i32, height: i32, color: Color)
        requires
            old(self).wf(),
        ensures
            final(self).wf(),
            final(self)@ == old(self)@.draw_filled_rectangle(
                x as int,
                y as int,
                width as int,
                height as int,
                color,
            ),
    {
        let mut x0: i64 = clamp_within(x as i64, self.width);
        let mut y0: i64 = clamp_within(y as i64, self.height);
        let mut x1: i64 = clamp_within(x as i64 + width as i64, self.width);
        let mut y1: i64 = clamp_within(y as i64 + height as i64, self.height);

        if x0 > x1 {
            let swapped: i64 = x0;
            x0 = x1;
            x1 = swapped;
        }
        if y0 > y1 {
            let swapped: i64 = y0;
            y0 = y1;
            y1 = swapped;
        }
        let ghost whole = old(self)@.draw_block(
            x0 as int,
            y0 as int,
            x1 - x0 + 1,
            y1 - y0 + 1,
            color,
        );

        let mut row: i64 = y0;
        while row <= y1
            invariant
                self.wf(),
                0 <= x0 <= x1 <= reach(),
                0 <= y0 <= row <= y1 + 1 <= reach() + 1,
                self@.draw_block(x0 as int, row as int, x1 - x0 + 1, y1 - row + 1, color) == whole,
            decreases y1 - row + 1,
        {
            let ghost row_start = self@;
            let mut column: i64 = x0;
            while column <= x1
                invariant
                    self.wf(),
                    0 <= x0 <= column <= x1 + 1 <= reach() + 1,
                    0 <= row <= reach(),
                    self@.draw_row(column as int, row as int, x1 - column + 1, color)
                        == row_start.draw_row(x0 as int, row as int, x1 - x0 + 1, color),
                decreases x1 - column + 1,
            {
                self.draw_at(column, row, color);
                column += 1;
            }
            row += 1;
        }
    }

    /// Fills the box between two corners, in cells of the buffer.
    pub(crate) fn fill_rect(
        &mut self,
        from_x: i64,
        from_y: i64,
        to_x: i64,
        to_y: i64,
        color: Color,
    )
        requires
            old(self).wf(),
            from_x <= reach(),
            from_y <= reach(),
            to_x <= reach(),
            to_y <= reach(),
        ensures
            final(self).wf(),
            final(self)@ == old(self)@.fill_rect(
                from_x as int,
                from_y as int,
                to_x as int,
                to_y as int,
                color,
            ),
    {
        let mut x0: i64 = clamp_within(from_x, self.width);
        let mut y0: i64 = clamp_within(from_y, self.height);
        let mut x1: i64 = clamp_within(to_x, self.width);
        let mut y1: i64 = clamp_within(to_y, self.height);

        if x0 > x1 {
            let swapped: i64 = x0;
            x0 = x1;
            x1 = swapped;
        }
        if y0 > y1 {
            let swapped: i64 = y0;
            y0 = y1;
            y1 = swapped;
        }
        let ghost whole = old(self)@.put_block(
            x0 as int,
            y0 as int,
            x1 - x0 + 1,
            y1 - y0 + 1,
            color,
        );

        let mut row: i64 = y0;
        while row <= y1
            invariant
                self.wf(),
                0 <= x0 <= x1 <= reach(),
                0 <= y0 <= row <= y1 + 1 <= reach() + 1,
                self@.put_block(x0 as int, row as int, x1 - x0 + 1, y1 - row + 1, color) == whole,
            decreases y1 - row + 1,
        {
            let ghost row_start = self@;
            let mut column: i64 = x0;
            while column <= x1
                invariant
                    self.wf(),
                    0 <= x0 <= column <= x1 + 1 <= reach() + 1,
                    0 <= row <= reach(),
                    self@.put_row(column as int, row as int, x1 - column + 1, color)
                        == row_start.put_row(x0 as int, row as int, x1 - x0 + 1, color),
                decreases x1 - column + 1,
            {
                self.put_pixel(column as i128, row as i128, color);
                column += 1;
            }
            row += 1;
        }
    }

    /// Fills the box with the corner `(x, y)` and the given width and
    /// height, in cells of the buffer: the virtual-pixel scale does not
    /// apply.
    pub fn draw_filled_rectangle_unscaled(
        &mut self,
        x: i32,
        y: i32,
        width: i32,
        height: i32,
        color: Color,
    )
        requires
            old(self).wf(),
        ensures
            final(self).wf(),
            final(self)@ == old(self)@.draw_filled_rectangle_unscaled(
                x as int,
                y as int,
                width as int,
                height as int,
                color,
            ),
    {
        self.fill_rect(
            x as i64,
            y as i64,
            x as i64 + width as i64,
            y as i64 + height as i64,
            color,
        );
    }

    /// Draws the outline of the circle about `(x, y)` by the midpoint
    /// algorithm.
    pub fn draw_wireframe_circle(&mut self, x: i32, y: i32, radius: i32, color: Color)
        requires
            old(self).wf(),
        ensures
            final(self).wf(),
            final(self)@ == old(self)@.draw_wireframe_circle(
                x as int,
                y as int,
                radius as int,
                color,
            ),
    {
        let x: i64 = x as i64;
        let y: i64 = y as i64;
        let radius: i64 = radius as i64;

        let mut x0: i64 = 0;
        let mut y0: i64 = radius;
        let mut d: i64 = 3 - 2 * radius;

        while y0 >= x0
            invariant
                self.wf(),
                i32::MIN <= x <= i32::MAX,
                i32::MIN <= y <= i32::MAX,
                radius <= i32::MAX,
                octant_in_range(x0 as int, y0 as int, d as int, radius as int),
                self@.draw_points(octant_points(x as int, y as int, x0 as int, y0 as int, d as int), color)
                    == old(self)@.draw_wireframe_circle(x as int, y as int, radius as int, color),
            decreases y0 - x0 + 2,
        {
            proof {
                self@.lemma_draw_points_eight(
                    mirrored(x as int, y as int, x0 as int, y0 as int),
                    octant_points(
                        x as int,
                        y as int,
                        x0 + 1,
                        next_y(y0 as int, d as int),
                        next_decision(x0 as int, y0 as int, d as int),
                    ),
                    color,
                );
            }
            self.draw_at(x + x0, y + y0, color);
            self.draw_at(x - x0, y + y0, color);
            self.draw_at(x + x0, y - y0, color);
            self.draw_at(x - x0, y - y0, color);
            self.draw_at(x + y0, y + x0, color);
            self.draw_at(x - y0, y + x0, color);
            self.draw_at(x + y0, y - x0, color);
            self.draw_at(x - y0, y - x0, color);

            x0 += 1;
            if d > 0 {
                y0 -= 1;
                d += 4 * (x0 - y0) + 10;
            } else {
                d += 4 * x0 + 6;
            }
        }
    }

    /// Fills the disc about `(x, y)` with horizontal chords, by the midpoint
    /// algorithm.
    pub fn draw_filled_circle(&mut self, x: i32, y: i32, radius: i32, color: Color)
        requires
            old(self).wf(),
        ensures
            final(self).wf(),
            final(self)@ == old(self)@.draw_filled_circle(
                x as int,
                y as int,
                radius as int,
                color,
            ),
    {
        let x: i64 = x as i64;
        let y: i64 = y as i64;
        let radius: i64 = radius as i64;

        let mut x0: i64 = 0;
        let mut y0: i64 = radius;
        let mut d: i64 = 3 - 2 * radius;

        while y0 >= x0
            invariant
                self.wf(),
                i32::MIN <= x <= i32::MAX,
                i32::MIN <= y <= i32::MAX,
                radius <= i32::MAX,
                octant_in_range(x0 as int, y0 as int, d as int, radius as int),
                self@.draw_segments(
                    octant_chords(x as int, y as int, x0 as int, y0 as int, d as int),
                    color,
                ) == old(self)@.draw_filled_circle(x as int, y as int, radius as int, color),
            decreases y0 - x0 + 2,
        {
            proof {
                self@.lemma_draw_segments_four(
                    chords(x as int, y as int, x0 as int, y0 as int),
                    octant_chords(
                        x as int,
                        y as int,
                        x0 + 1,
                        next_y(y0 as int, d as int),
                        next_decision(x0 as int, y0 as int, d as int),
                    ),
                    color,
                );
            }
            self.draw_line_at(x - x0, y - y0, x + x0, y - y0, color);
            self.draw_line_at(x - y0, y - x0, x + y0, y - x0, color);
            self.draw_line_at(x - y0, y + x0, x + y0, y + x0, color);
            self.draw_line_at(x - x0, y + y0, x + x0, y + y0, color);

            x0 += 1;
            if d > 0 {
                y0 -= 1;
                d += 4 * (x0 - y0) + 10;
            } else {
                d += 4 * x0 + 6;
            }
        }
    }

    /// Fills the rows between two edges that climb from the row `bottom`
    /// to the row `top`. Each edge is followed by a walker of its own; when
    /// both have entered a row, the line between them is drawn.
    fn fill_between_edges(
        &mut self,
        left_x: u32,
        right_x: u32,
        bottom: u32,
        left_end: u32,
        right_end: u32,
        top: u32,
        color: Color,
    )
        requires
            old(self).wf(),
            bottom <= top,
        ensures
            final(self).wf(),
            final(self)@ == old(self)@.fill_between_edges(
                left_x as int,
                right_x as int,
                bottom as int,
                left_end as int,
                right_end as int,
                top as int,
                color,
            ),
    {
        let mut left = BresenhamLine::new(left_x, bottom, left_end, top);
        let mut right = BresenhamLine::new(right_x, bottom, right_end, top);

        let mut current_left_x: u32 = left_x;
        let mut current_left_y: u32 = bottom;
        let mut current_right_x: u32 = right_x;
        let mut current_right_y: u32 = bottom;

        let ghost left_edge = left@;
        let ghost right_edge = right@;
        let ghost mut left_at: int = 0;
        let ghost mut left_taken: int = 0;
        let ghost mut right_at: int = 0;
        let ghost mut right_taken: int = 0;
        proof {
            lemma_line_climbs(left_x as int, bottom as int, left_end as int, top as int);
            lemma_line_climbs(right_x as int, bottom as int, right_end as int, top as int);
            lemma_line_points(left_x as int, bottom as int, left_end as int, top as int);
            lemma_line_points(right_x as int, bottom as int, right_end as int, top as int);
            assert(left_edge.skip(0) =~= left_edge);
            assert(right_edge.skip(0) =~= right_edge);
        }

        while current_left_y < top && current_right_y < top
            invariant
                self.wf(),
                left.wf(),
                right.wf(),
                current_left_y == current_right_y,
                current_left_y <= top,
                climbs(left_edge, bottom as int, top as int),
                climbs(right_edge, bottom as int, top as int),
                tracks(
                    left_edge,
                    left@,
                    (current_left_x as int, current_left_y as int),
                    left_at,
                    left_taken,
                    current_left_y as int,
                ),
                tracks(
                    right_edge,
                    right@,
                    (current_right_x as int, current_right_y as int),
                    right_at,
                    right_taken,
                    current_right_y as int,
                ),
                self@.draw_segments(
                    scan_rows(left_edge, right_edge, current_left_y as int, top as int),
                    color,
                ) == old(self)@.draw_segments(
                    scan_rows(left_edge, right_edge, bottom as int, top as int),
                    color,
                ),
            decreases top - current_left_y,
        {
            proof {
                lemma_tracks_next(
                    left_edge,
                    left@,
                    (current_left_x as int, current_left_y as int),
                    left_at,
                    left_taken,
                    current_left_y as int,
                    bottom as int,
                    top as int,
                );
                lemma_tracks_next(
                    right_edge,
                    right@,
                    (current_right_x as int, current_right_y as int),
                    right_at,
                    right_taken,
                    current_right_y as int,
                    bottom as int,
                    top as int,
                );
                left_at = left_taken + first_at_or_above(left@, current_left_y + 1);
                left_taken = left_at + 1;
                right_at = right_taken + first_at_or_above(right@, current_right_y + 1);
                right_taken = right_at + 1;
                let spans = scan_rows(left_edge, right_edge, current_left_y as int, top as int);
                assert(spans.skip(1) =~= scan_rows(
                    left_edge,
                    right_edge,
                    current_left_y + 1,
                    top as int,
                ));
            }
            self.draw_line_at(
                current_left_x as i64,
                current_left_y as i64,
                current_right_x as i64,
                current_right_y as i64,
                color,
            );

            match next_above(&mut left, current_left_y) {
                Some((x, y)) => {
                    current_left_x = x;
                    current_left_y = y;
                },
                None => {},
            }
            match next_above(&mut right, current_right_y) {
                Some((x, y)) => {
                    current_right_x = x;
                    current_right_y = y;
                },
                None => {},
            }
        }
        proof {
            assert(scan_rows(left_edge, right_edge, current_left_y as int, top as int).len() == 0);
        }
    }

    /// Fills the part of a triangle above its flat side: the rows from that
    /// side, which joins `(x0, y0)` and `(x1, y1)`, up to the corner
    /// `(x2, y2)`.
    fn fill_flat_bottom_triangle(
        &mut self,
        x0: u32,
        y0: u32,
        x1: u32,
        y1: u32,
        x2: u32,
        y2: u32,
        color: Color,
    )
        requires
            old(self).wf(),
            y0 == y1,
            y0 <= y2,
        ensures
            final(self).wf(),
            final(self)@ == old(self)@.fill_between_edges(
                x0 as int,
                x1 as int,
                y0 as int,
                x2 as int,
                x2 as int,
                y2 as int,
                color,
            ),
    {
        self.fill_between_edges(x0, x1, y0, x2, x2, y2, color);
    }

    /// Fills the part of a triangle below its flat side: the rows from the
    /// corner `(x0, y0)` up to that side, which joins `(x1, y1)` and
    /// `(x2, y2)`.
    fn fill_flat_top_triangle(
        &mut self,
        x0: u32,
        y0: u32,
        x1: u32,
        y1: u32,
        x2: u32,
        y2: u32,
        color: Color,
    )
        requires
            old(self).wf(),
            y1 == y2,
            y0 <= y1,
        ensures
            final(self).wf(),
            final(self)@ == old(self)@.fill_between_edges(
                x0 as int,
                x0 as int,
                y0 as int,
                x1 as int,
                x2 as int,
                y1 as int,
                color,
            ),
    {
        self.fill_between_edges(x0, x0, y0, x1, x2, y1, color);
    }

    /// Fills the triangle with the three corners given.
    pub fn draw_filled_triangle(
        &mut self,
        x0: i32,
        y0: i32,
        x1: i32,
        y1: i32,
        x2: i32,
        y2: i32,
        color: Color,
    )
        requires
            old(self).wf(),
        ensures
            final(self).wf(),
            final(self)@ == old(self)@.draw_filled_triangle(
                x0 as int,
                y0 as int,
                x1 as int,
                y1 as int,
                x2 as int,
                y2 as int,
                color,
            ),
    {
        let ghost sorted = sort_by_y(
            (x0 as int, y0 as int),
            (x1 as int, y1 as int),
            (x2 as int, y2 as int),
        );
        let mut x0: i64 = x0 as i64;
        let mut y0: i64 = y0 as i64;
        let mut x1: i64 = x1 as i64;
        let mut y1: i64 = y1 as i64;
        let mut x2: i64 = x2 as i64;
        let mut y2: i64 = y2 as i64;
        // Sort vertices by y so that y0 <= y1 <= y2.
        if y1 < y0 {
            let x: i64 = x0;
            let y: i64 = y0;
            x0 = x1;
            y0 = y1;
            x1 = x;
            y1 = y;
        }
        if y2 < y0 {
            let x: i64 = x0;
            let y: i64 = y0;
            x0 = x2;
            y0 = y2;
            x2 = x;
            y2 = y;
        }
        if y2 < y1 {
            let x: i64 = x2;
            let y: i64 = y2;
            x2 = x1;
            y2 = y1;
            x1 = x;
            y1 = y;
        }
        assert(sorted == ((x0 as int, y0 as int), (x1 as int, y1 as int), (x2 as int, y2 as int)));

        // All three corners on one row: there is no row to fill.
        if y2 == y0 {
            return ;
        }
        // Split into a flat top and flat bottom triangle.

        let x3: i64 = split_at(x0, y0, y1, x2, y2);

        let x0: u32 = saturate_to_u32(x0);
        let y0: u32 = saturate_to_u32(y0);
        let x1: u32 = saturate_to_u32(x1);
        let y1: u32 = saturate_to_u32(y1);
        let x2: u32 = saturate_to_u32(x2);
        let y2: u32 = saturate_to_u32(y2);
        let x3: u32 = saturate_to_u32(x3);
        self.fill_flat_bottom_triangle(x1, y1, x3, y1, x2, y2, color);
        self.fill_flat_top_triangle(x0, y0, x1, y1, x3, y1, color);
    }

    /// Draws the outline of a model: the closed polygon through its
    /// vertices, which are given as they lie on the screen.
    pub fn draw_wireframe_model(&mut self, vertices: &Vec<(i32, i32)>, color: Color)
        requires
            old(self).wf(),
        ensures
            final(self).wf(),
            final(self)@ == old(self)@.draw_wireframe_model(vertices@, color),
    {
        let count: usize = vertices.len();
        let ghost sides = polygon_sides(vertices@);
        proof {
            assert(sides.skip(0) =~= sides);
        }
        for i in 0..count
            invariant
                self.wf(),
                count == vertices.len(),
                sides == polygon_sides(vertices@),
                self@.draw_segments(sides.skip(i as int), color) == old(self)@.draw_segments(
                    sides,
                    color,
                ),
        {
            let a = vertices[i];
            let b = vertices[(i + 1) % count];
            proof {
                assert(sides.skip(i as int).skip(1) =~= sides.skip(i + 1));
            }
            self.draw_line(a.0, a.1, b.0, b.1, color);
        }
    }

    /// Draws the glyphs of a text, the first at the pen position `(x, y)`.
    /// Glyph cells are single cells of the buffer: the virtual-pixel scale
    /// does not apply.
    pub fn draw_string(&mut self, glyphs: &Vec<RasterizedFont>, x: i32, y: i32, color: Color)
        requires
            old(self).wf(),
            forall|i: int| 0 <= i < glyphs@.len() ==> (#[trigger] glyphs@[i]).wf(),
        ensures
            final(self).wf(),
            final(self)@ == old(self)@.draw_string(glyphs@, x as int, y as int, color),
    {
        let mut character_offset_x: i128 = 0;
        let count: usize = glyphs.len();
        proof {
            assert(glyphs@.skip(0) =~= glyphs@);
        }
        for i in 0..count
            invariant
                self.wf(),
                count == glyphs.len(),
                forall|i: int| 0 <= i < glyphs@.len() ==> (#[trigger] glyphs@[i]).wf(),
                -i * 0x8000_0000 <= character_offset_x <= i * 0x8000_0000,
                self@.draw_string(glyphs@.skip(i as int), x + character_offset_x, y as int, color)
                    == old(self)@.draw_string(glyphs@, x as int, y as int, color),
        {
            let rasterized = &glyphs[i];
            let ghost glyph = glyphs@[i as int];
            assert(glyph.wf());
            proof {
                assert(glyphs@.skip(i as int).skip(1) =~= glyphs@.skip(i + 1));
            }
            let ghost pen = x + character_offset_x;
            let ghost whole = self@.draw_glyph_rows(glyph, pen, y as int, color, 0);

            for rasterized_y in 0..rasterized.height
                invariant
                    self.wf(),
                    glyph.wf(),
                    *rasterized == glyph,
                    pen == x + character_offset_x,
                    -i * 0x8000_0000 <= character_offset_x <= i * 0x8000_0000,
                    self@.draw_glyph_rows(glyph, pen, y as int, color, rasterized_y as int)
                        == whole,
            {
                let ghost row_start = self@;
                for rasterized_x in 0..rasterized.width
                    invariant
                        self.wf(),
                        glyph.wf(),
                        *rasterized == glyph,
                        rasterized_y < glyph.height,
                        pen == x + character_offset_x,
                        -i * 0x8000_0000 <= character_offset_x <= i * 0x8000_0000,
                        self@.draw_glyph_row(
                            glyph,
                            pen,
                            y as int,
                            color,
                            rasterized_y as int,
                            rasterized_x as int,
                        ) == row_start.draw_glyph_row(
                            glyph,
                            pen,
                            y as int,
                            color,
                            rasterized_y as int,
                            0,
                        ),
                {
                    assert(rasterized.data.len() == rasterized.width * rasterized.height);
                    assert(0 <= rasterized_y * rasterized.width && rasterized_y * rasterized.width
                        + rasterized_x < rasterized.width * rasterized.height)
                        by (nonlinear_arith)
                        requires
                            rasterized_y < rasterized.height,
                            rasterized_x < rasterized.width,
                    ;
                    let font_color = Color::rgba(
                        color.r(),
                        color.g(),
                        color.b(),
                        rasterized.data[rasterized_y * rasterized.width + rasterized_x],
                    );
                    self.put_pixel(
                        x as i128 + character_offset_x + rasterized.xmin as i128
                            + rasterized_x as i128,
                        y as i128 + rasterized.ymin as i128 + (rasterized.height - rasterized_y) as i128,
                        font_color,
                    );
                }
            }

            character_offset_x += rasterized.advance_width as i128;
        }
    }

    /// Draws a sprite with its own colours and alpha, one logical pixel for
    /// each of its pixels.
    pub fn draw_sprite(&mut self, x: i32, y: i32, sprite: &Sprite)
        requires
            old(self).wf(),
            sprite.wf(),
        ensures
            final(self).wf(),
            final(self)@ == old(self)@.draw_sprite(x as int, y as int, *sprite),
    {
        let width: usize = sprite.width() as usize;
        let height: usize = sprite.height() as usize;
        let sprite_data = sprite.data();
        for sprite_y in 0..height
            invariant
                self.wf(),
                sprite.wf(),
                width == sprite.width(),
                height == sprite.height(),
                sprite_data@ == sprite.spec_data(),
                self@.draw_sprite_rows(x as int, y as int, *sprite, sprite_y as int) == old(
                    self,
                )@.draw_sprite(x as int, y as int, *sprite),
        {
            let ghost row_start = self@;
            for sprite_x in 0..width
                invariant
                    self.wf(),
                    sprite.wf(),
                    width == sprite.width(),
                    height == sprite.height(),
                    sprite_y < height,
                    sprite_data@ == sprite.spec_data(),
                    self@.draw_sprite_row(
                        x as int,
                        y as int,
                        *sprite,
                        sprite_y as int,
                        sprite_x as int,
                    ) == row_start.draw_sprite_row(x as int, y as int, *sprite, sprite_y as int, 0),
            {
                let column: i64 = x as i64 + sprite_x as i64;
                let row: i64 = y as i64 + (height - sprite_y) as i64;

                assert(sprite_data.len() == 4 * width * height);
                assert(0 <= sprite_y * width && (sprite_y * width + sprite_x) * 4 + 3 < 4 * width
                    * height) by (nonlinear_arith)
                    requires
                        sprite_y < height,
                        sprite_x < width,
                ;
                let offset: usize = (sprite_y * width + sprite_x) * 4;
                let r: u8 = sprite_data[offset];
                let g: u8 = sprite_data[offset + 1];
                let b: u8 = sprite_data[offset + 2];
                let a: u8 = sprite_data[offset + 3];
                let color = Color::rgba(r, g, b, a);

                self.draw_at(column, row, color);
            }
        }
    }

    /// Fills the whole buffer with `color`.
    pub fn clear(&mut self, color: Color)
        requires
            old(self).wf(),
        ensures
            final(self).wf(),
            final(self)@ == old(self)@.clear(color),
    {
        assert(self.buffer.data.len() == self.width * self.height);
        self.buffer.data = vec![color.to_argb(); self.width * self.height];
        assert(self@.pixels =~= old(self)@.clear(color).pixels);
    }
}

} // verus!
