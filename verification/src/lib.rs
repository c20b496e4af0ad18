//! A software rasterizer: lines, triangles, rectangles, circles, glyphs and
//! sprites drawn into an in-memory pixel buffer with integer scan conversion
//! and per-pixel alpha compositing.
//!
//! - [`color`]: colours, their packed words, and the blend.
//! - [`platform`]: the frame buffer, and the state of keys and mouse.
//! - [`renderer`]: the line walker, the geometry of circles and triangles,
//!   the picture as a mathematical value ([`renderer::canvas::Canvas`]), the
//!   renderers, whose contracts say which picture each operation leaves, and
//!   in [`renderer::laws`] what that means for each single cell.
//! - [`engine`]: sprites, settings, keys, a clock, and the traits that a game
//!   sees.
//! - [`font`], [`errors`], [`util`]: glyphs, errors, and frame pacing.
//!
//! Drawing counts `y` upwards and the buffer keeps its rows from the top: the
//! height `y` is the row `height - y` of the buffer. Nothing that is drawn
//! fails: what lies outside the picture is left out.

pub mod color;
pub mod engine;
pub mod errors;
pub mod font;
pub mod platform;
pub mod renderer;
pub mod util;
