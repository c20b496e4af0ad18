//! What the renderer and the game share with the window they are shown in.

pub mod framebuffer;
pub mod input;

pub use framebuffer::FrameBuffer;
