//! Scan conversion: the line walker and the renderers built on it.

pub mod bresenham;
pub mod canvas;
pub mod circle;
pub mod laws;
pub mod renderer2d;
pub mod software_2d;
pub mod triangle;
