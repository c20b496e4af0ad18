//! What a game asks of the keyboard.

use vstd::prelude::*;

pub use crate::engine::key::Key;

verus! {

/// The keys as a game sees them in a frame.
pub trait Input {
    /// The state of `key` in this frame, as `(is_down, was_down)`: whether
    /// it is down, and whether it was down in the frame before.
    spec fn key_is_down_was_down(&self, key: Key) -> (bool, bool);

    /// The key is down and was down in the frame before.
    fn is_key_held(&self, key: Key) -> (held: bool)
        ensures
            held == (self.key_is_down_was_down(key).0 && self.key_is_down_was_down(key).1),
    ;

    /// The key is up and was down in the frame before.
    fn was_key_released(&self, key: Key) -> (released: bool)
        ensures
            released == (!self.key_is_down_was_down(key).0 && self.key_is_down_was_down(key).1),
    ;
}

} // verus!
