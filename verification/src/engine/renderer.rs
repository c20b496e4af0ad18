//! What a game draws with.

use vstd::prelude::*;

use crate::color::Color;
use crate::engine::sprite::Sprite;
use crate::font::RasterizedFont;
use crate::renderer::canvas::Canvas;

verus! {

/// A surface that a game draws on. Places are pairs `(x, y)`, with `y`
/// counted upwards.
pub trait Renderer {
    /// The picture as drawn so far.
    spec fn canvas(&self) -> Canvas;

    /// The renderer's buffer fits its measures.
    spec fn wf(&self) -> bool;

    fn width(&self) -> (width: usize)
        ensures
            width == self.canvas().width,
    ;

    fn height(&self) -> (height: usize)
        ensures
            height == self.canvas().height,
    ;

    /// Fills the whole picture with `color`.
    fn clear(&mut self, color: Color)
        requires
            old(self).wf(),
        ensures
            final(self).wf(),
            final(self).canvas() == old(self).canvas().clear(color),
    ;

    /// Blends `color` onto the logical pixel at `position`.
    fn draw(&mut self, position: (i32, i32), color: Color)
        requires
            old(self).wf(),
        ensures
            final(self).wf(),
            final(self).canvas() == old(self).canvas().draw(
                position.0 as int,
                position.1 as int,
                color,
            ),
    ;

    /// Blends `color` onto every cell of the box between two corners.
    fn fill_rect(&mut self, from: (i32, i32), to: (i32, i32), color: Color)
        requires
            old(self).wf(),
        ensures
            final(self).wf(),
            final(self).canvas() == old(self).canvas().fill_rect(
                from.0 as int,
                from.1 as int,
                to.0 as int,
                to.1 as int,
                color,
            ),
    ;

    /// Draws the glyphs of a text, the first at `origin`.
    fn draw_string(&mut self, glyphs: &Vec<RasterizedFont>, origin: (i32, i32), color: Color)
        requires
            old(self).wf(),
            forall|i: int| 0 <= i < glyphs@.len() ==> (#[trigger] glyphs@[i]).wf(),
        ensures
            final(self).wf(),
            final(self).canvas() == old(self).canvas().draw_string(
                glyphs@,
                origin.0 as int,
                origin.1 as int,
                color,
            ),
    ;

    /// Draws a sprite with its lower left corner at `pos`.
    fn draw_sprite(&mut self, sprite: &Sprite, pos: (i32, i32))
        requires
            old(self).wf(),
            sprite.wf(),
        ensures
            final(self).wf(),
            final(self).canvas() == old(self).canvas().draw_sprite(
                pos.0 as int,
                pos.1 as int,
                *sprite,
            ),
    ;
}

} // verus!
