//! What a game is made of besides the picture: sprites, settings, keys, a
//! clock.

pub mod apparatus;
pub mod clock;
pub mod input;
pub mod key;
pub mod mouse;
pub mod renderer;
pub mod sprite;
