//! The renderer as games see it: the drawing operations of the engine's
//! `Renderer` trait on a frame buffer.

use vstd::prelude::*;

use crate::color::Color;
use crate::engine::renderer::Renderer;
use crate::engine::sprite::Sprite;
use crate::font::RasterizedFont;
use crate::platform::framebuffer::FrameBuffer;
use crate::renderer::canvas::Canvas;
use crate::renderer::software_2d;

verus! {

/// Draws into a frame buffer through the software renderer.
pub struct Renderer2d {
    renderer: software_2d::Renderer,
}

impl View for Renderer2d {
    type V = Canvas;

    closed spec fn view(&self) -> Canvas {
        self.renderer@
    }
}

impl Renderer2d {
    /// A renderer for a buffer of the measures `window_dimensions`, as
    /// `(width, height)` in cells.
    pub fn new(
        window_dimensions: (usize, usize),
        pixel_width: usize,
        pixel_height: usize,
        buffer: FrameBuffer,
    ) -> (renderer: Self)
        requires
            buffer@.len() == window_dimensions.0 * window_dimensions.1,
        ensures
            renderer.wf(),
            renderer@ == (Canvas {
                pixels: buffer@,
                width: window_dimensions.0 as int,
                height: window_dimensions.1 as int,
                pixel_width: pixel_width as int,
                pixel_height: pixel_height as int,
            }),
    {
        Self {
            renderer: software_2d::Renderer::new(
                window_dimensions.0,
                window_dimensions.1,
                pixel_width,
                pixel_height,
                buffer,
            ),
        }
    }

    /// The frame buffer as drawn so far.
    pub fn buffer(&self) -> (buffer: &FrameBuffer)
        ensures
            buffer@ == self@.pixels,
    {
        self.renderer.buffer()
    }
}

impl Renderer for Renderer2d {
    open spec fn canvas(&self) -> Canvas {
        self@
    }

    open spec fn wf(&self) -> bool {
        self@.wf()
    }

    fn width(&self) -> (width: usize) {
        self.renderer.width()
    }

    fn height(&self) -> (height: usize) {
        self.renderer.height()
    }

    fn clear(&mut self, color: Color) {
        self.renderer.clear(color);
    }

    fn draw(&mut self, position: (i32, i32), color: Color) {
        self.renderer.draw(position.0, position.1, color);
    }

    fn fill_rect(&mut self, from: (i32, i32), to: (i32, i32), color: Color) {
        self.renderer.fill_rect(from.0 as i64, from.1 as i64, to.0 as i64, to.1 as i64, color);
    }

    fn draw_string(&mut self, glyphs: &Vec<RasterizedFont>, origin: (i32, i32), color: Color) {
        self.renderer.draw_string(glyphs, origin.0, origin.1, color);
    }

    fn draw_sprite(&mut self, sprite: &Sprite, pos: (i32, i32)) {
        self.renderer.draw_sprite(pos.0, pos.1, sprite);
    }
}

} // verus!
