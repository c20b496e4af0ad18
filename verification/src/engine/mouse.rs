//! The buttons of the mouse.

use vstd::prelude::*;

verus! {

/// A button of the mouse.
#[derive(Copy, Clone, Debug, PartialEq, Eq, Hash, Structural)]
pub enum MouseButton {
    Left,
    Middle,
    Right,
}

/// The number of mouse buttons.
pub const MOUSE_BUTTON_COUNT: u64 = 3;

impl MouseButton {
    /// The number of the button in the order of declaration, from 0.
    pub open spec fn spec_code(self) -> u64 {
        match self {
            MouseButton::Left => 0,
            MouseButton::Middle => 1,
            MouseButton::Right => 2,
        }
    }

    /// The button with the number `code`.
    pub open spec fn spec_from_code(code: u64) -> Option<MouseButton> {
        if code == 0 {
            Some(MouseButton::Left)
        } else if code == 1 {
            Some(MouseButton::Middle)
        } else if code == 2 {
            Some(MouseButton::Right)
        } else {
            None
        }
    }

    /// The number of the button in the order of declaration, from 0.
    #[verifier::when_used_as_spec(spec_code)]
    pub fn code(self) -> (code: u64)
        ensures
            code == self.spec_code(),
            code < MOUSE_BUTTON_COUNT,
    {
        match self {
            MouseButton::Left => 0,
            MouseButton::Middle => 1,
            MouseButton::Right => 2,
        }
    }

    /// The button with the number `code`, if there is one.
    #[verifier::when_used_as_spec(spec_from_code)]
    pub fn from_code(code: u64) -> (button: Option<MouseButton>)
        ensures
            button == MouseButton::spec_from_code(code),
    {
        if code == 0 {
            Some(MouseButton::Left)
        } else if code == 1 {
            Some(MouseButton::Middle)
        } else if code == 2 {
            Some(MouseButton::Right)
        } else {
            None
        }
    }

    /// Buttons and the numbers below `MOUSE_BUTTON_COUNT` stand for each
    /// other.
    pub proof fn lemma_codes(button: MouseButton, code: u64)
        ensures
            button.code() < MOUSE_BUTTON_COUNT,
            MouseButton::from_code(button.code()) == Some(button),
            MouseButton::from_code(code) is Some <==> code < MOUSE_BUTTON_COUNT,
            MouseButton::from_code(code) matches Some(b) ==> b.code() == code,
    {
    }
}

} // verus!
