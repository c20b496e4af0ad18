//! The state of keys and mouse from one frame to the next.

use std::collections::HashMap;
use vstd::prelude::*;

use crate::engine::key::{Key, KEY_COUNT};
use crate::engine::mouse::{MouseButton, MOUSE_BUTTON_COUNT};

verus! {

/// Whether a key or button is down in this frame, and whether it was in the
/// frame before.
#[derive(Clone, Copy, Debug, Default, PartialEq, Eq, Structural)]
pub struct ButtonState {
    pub is_down: bool,
    pub was_down: bool,
}

impl ButtonState {
    /// The state with the two flags given.
    pub fn new(is_down: bool, was_down: bool) -> (state: Self)
        ensures
            state == (ButtonState { is_down, was_down }),
    {
        Self { is_down, was_down }
    }
}

/// What a state map says of the key or button with the number `code`.
pub open spec fn state_at(states: Map<u64, ButtonState>, code: u64) -> Option<ButtonState> {
    if states.contains_key(code) {
        Some(states[code])
    } else {
        None
    }
}

/// The state of a key or button after a frame in which it was polled as
/// `is_down`: it was down before if the frame before knew it as down.
pub open spec fn next_state(previous: Option<ButtonState>, is_down: bool) -> ButtonState {
    ButtonState { is_down, was_down: previous matches Some(state) && state.is_down }
}

struct MouseState {
    x: i64,
    y: i64,
    buttons: HashMap<u64, ButtonState>,
}

/// The keys and mouse buttons as of the last frame that was processed, and
/// the place of the mouse.
pub struct Input {
    keys: HashMap<u64, ButtonState>,
    mouse: MouseState,
}

fn key_is_among(keys: &Vec<Key>, key: Key) -> (found: bool)
    ensures
        found == keys@.contains(key),
{
    for i in 0..keys.len()
        invariant
            forall|j: int| 0 <= j < i ==> keys@[j] != key,
    {
        if keys[i] == key {
            return true;
        }
    }
    false
}

fn button_is_among(buttons: &Vec<MouseButton>, button: MouseButton) -> (found: bool)
    ensures
        found == buttons@.contains(button),
{
    for i in 0..buttons.len()
        invariant
            forall|j: int| 0 <= j < i ==> buttons@[j] != button,
    {
        if buttons[i] == button {
            return true;
        }
    }
    false
}

/// The state of every key after a frame in which the keys `keys_down` were
/// down.
fn process_keys(keys_down: &Vec<Key>, previous_keys: &HashMap<u64, ButtonState>) -> (keys: HashMap<
    u64,
    ButtonState,
>)
    ensures
        forall|key: Key|
            #![trigger key.spec_code()]
            state_at(keys@, key.code()) == Some(
                next_state(state_at(previous_keys@, key.code()), keys_down@.contains(key)),
            ),
{
    let mut keys: HashMap<u64, ButtonState> = HashMap::new();
    let mut code: u64 = 0;
    while code < KEY_COUNT
        invariant
            code <= KEY_COUNT,
            forall|key: Key|
                #![trigger key.spec_code()]
                key.code() < code ==> state_at(keys@, key.code()) == Some(
                    next_state(state_at(previous_keys@, key.code()), keys_down@.contains(key)),
                ),
        decreases KEY_COUNT - code,
    {
        proof {
            Key::lemma_codes(Key::Up, code);
        }
        match Key::from_code(code) {
            Some(key) => {
                let is_down = key_is_among(keys_down, key);
                let was_down = match previous_keys.get(&code) {
                    Some(key) => key.is_down,
                    None => false,
                };
                let key_state = ButtonState::new(is_down, was_down);
                keys.insert(code, key_state);
                assert forall|other: Key| #![trigger other.spec_code()] other.code() < code + 1 implies state_at(
                    keys@,
                    other.code(),
                ) == Some(
                    next_state(state_at(previous_keys@, other.code()), keys_down@.contains(other)),
                ) by {
                    Key::lemma_codes(other, code);
                }
            },
            None => {},
        }
        code += 1;
    }
    proof {
        assert forall|key: Key| #![trigger key.spec_code()] key.code() < KEY_COUNT by {
            Key::lemma_codes(key, 0);
        }
    }
    keys
}

/// The state of every mouse button after a frame in which the buttons
/// `buttons_down` were down.
fn process_mouse(
    buttons_down: &Vec<MouseButton>,
    mouse_x: i32,
    mouse_y: i32,
    window_height: u32,
    previous_buttons: &HashMap<u64, ButtonState>,
) -> (mouse: MouseState)
    ensures
        mouse.x == mouse_x,
        mouse.y == window_height - mouse_y,
        forall|button: MouseButton|
            #![trigger button.spec_code()]
            state_at(mouse.buttons@, button.code()) == Some(
                next_state(
                    state_at(previous_buttons@, button.code()),
                    buttons_down@.contains(button),
                ),
            ),
{
    let mut buttons: HashMap<u64, ButtonState> = HashMap::new();
    let mut code: u64 = 0;
    while code < MOUSE_BUTTON_COUNT
        invariant
            code <= MOUSE_BUTTON_COUNT,
            forall|button: MouseButton|
                #![trigger button.spec_code()]
                button.code() < code ==> state_at(buttons@, button.code()) == Some(
                    next_state(
                        state_at(previous_buttons@, button.code()),
                        buttons_down@.contains(button),
                    ),
                ),
        decreases MOUSE_BUTTON_COUNT - code,
    {
        proof {
            MouseButton::lemma_codes(MouseButton::Left, code);
        }
        match MouseButton::from_code(code) {
            Some(button) => {
                let is_down = button_is_among(buttons_down, button);
                let was_down = match previous_buttons.get(&code) {
                    Some(button) => button.is_down,
                    None => false,
                };
                let button_state = ButtonState::new(is_down, was_down);
                buttons.insert(code, button_state);
                assert forall|other: MouseButton| #![trigger other.spec_code()] other.code() < code + 1 implies state_at(
                    buttons@,
                    other.code(),
                ) == Some(
                    next_state(
                        state_at(previous_buttons@, other.code()),
                        buttons_down@.contains(other),
                    ),
                ) by {
                    MouseButton::lemma_codes(other, code);
                }
            },
            None => {},
        }
        code += 1;
    }
    proof {
        assert forall|button: MouseButton| #![trigger button.spec_code()] button.code() < MOUSE_BUTTON_COUNT by {
            MouseButton::lemma_codes(button, 0);
        }
    }
    // (0, 0) is bottom left.
    MouseState { x: mouse_x as i64, y: window_height as i64 - mouse_y as i64, buttons }
}

impl Input {
    /// What is known of `key`: nothing before the first frame.
    pub closed spec fn key_state(&self, key: Key) -> Option<ButtonState> {
        state_at(self.keys@, key.code())
    }

    /// What is known of `button`: nothing before the first frame.
    pub closed spec fn mouse_button_state(&self, button: MouseButton) -> Option<ButtonState> {
        state_at(self.mouse.buttons@, button.code())
    }

    /// The column of the mouse.
    pub closed spec fn spec_mouse_pos_x(&self) -> i64 {
        self.mouse.x
    }

    /// The height of the mouse above the bottom of the window.
    pub closed spec fn spec_mouse_pos_y(&self) -> i64 {
        self.mouse.y
    }

    /// An input that has seen no frame yet.
    pub fn new() -> (input: Self)
        ensures
            forall|key: Key| input.key_state(key) is None,
            forall|button: MouseButton| input.mouse_button_state(button) is None,
            input.spec_mouse_pos_x() == 0,
            input.spec_mouse_pos_y() == 0,
    {
        let keys = HashMap::new();
        let mouse = MouseState { x: 0, y: 0, buttons: HashMap::new() };

        Self { mouse, keys }
    }

    /// Takes in what one frame polled: the keys and buttons that are down,
    /// and the place of the mouse, counted from the top left of a window of
    /// the height `window_height`.
    pub fn process_input(
        &mut self,
        keys_down: &Vec<Key>,
        buttons_down: &Vec<MouseButton>,
        mouse_x: i32,
        mouse_y: i32,
        window_height: u32,
    )
        ensures
            forall|key: Key|
                #![trigger final(self).key_state(key)]
                final(self).key_state(key) == Some(
                    next_state(old(self).key_state(key), keys_down@.contains(key)),
                ),
            forall|button: MouseButton|
                #![trigger final(self).mouse_button_state(button)]
                final(self).mouse_button_state(button) == Some(
                    next_state(
                        old(self).mouse_button_state(button),
                        buttons_down@.contains(button),
                    ),
                ),
            final(self).spec_mouse_pos_x() == mouse_x,
            final(self).spec_mouse_pos_y() == window_height - mouse_y,
    {
        self.keys = process_keys(keys_down, &self.keys);
        self.mouse = process_mouse(
            buttons_down,
            mouse_x,
            mouse_y,
            window_height,
            &self.mouse.buttons,
        );
    }

    /// The key went down in the last frame.
    pub fn is_key_pressed(&self, key: Key) -> (pressed: bool)
        ensures
            pressed == (self.key_state(key) matches Some(state) && state.is_down
                && !state.was_down),
    {
        match self.keys.get(&key.code()) {
            Some(key) => key.is_down && !key.was_down,
            None => false,
        }
    }

    /// The key was down in the last frame and in the one before.
    pub fn is_key_held(&self, key: Key) -> (held: bool)
        ensures
            held == (self.key_state(key) matches Some(state) && state.is_down && state.was_down),
    {
        match self.keys.get(&key.code()) {
            Some(key) => key.is_down && key.was_down,
            None => false,
        }
    }

    /// The key went up in the last frame.
    pub fn was_key_released(&self, key: Key) -> (released: bool)
        ensures
            released == (self.key_state(key) matches Some(state) && !state.is_down
                && state.was_down),
    {
        match self.keys.get(&key.code()) {
            Some(key) => !key.is_down && key.was_down,
            None => false,
        }
    }

    /// The column of the mouse.
    #[verifier::when_used_as_spec(spec_mouse_pos_x)]
    pub fn mouse_pos_x(&self) -> (x: i64)
        ensures
            x == self.spec_mouse_pos_x(),
    {
        self.mouse.x
    }

    /// The height of the mouse above the bottom of the window.
    #[verifier::when_used_as_spec(spec_mouse_pos_y)]
    pub fn mouse_pos_y(&self) -> (y: i64)
        ensures
            y == self.spec_mouse_pos_y(),
    {
        self.mouse.y
    }

    /// The button was down in the last frame and in the one before.
    pub fn is_mouse_button_held(&self, button: MouseButton) -> (held: bool)
        ensures
            held == (self.mouse_button_state(button) matches Some(state) && state.is_down
                && state.was_down),
    {
        match self.mouse.buttons.get(&button.code()) {
            Some(button) => button.is_down && button.was_down,
            None => false,
        }
    }

    /// The button went up in the last frame.
    pub fn was_mouse_button_released(&self, button: MouseButton) -> (released: bool)
        ensures
            released == (self.mouse_button_state(button) matches Some(state) && !state.is_down
                && state.was_down),
    {
        match self.mouse.buttons.get(&button.code()) {
            Some(button) => !button.is_down && button.was_down,
            None => false,
        }
    }
}

impl crate::engine::input::Input for Input {
    open spec fn key_is_down_was_down(&self, key: Key) -> (bool, bool) {
        match self.key_state(key) {
            Some(state) => (state.is_down, state.was_down),
            None => (false, false),
        }
    }

    fn is_key_held(&self, key: Key) -> (held: bool) {
        Input::is_key_held(self, key)
    }

    fn was_key_released(&self, key: Key) -> (released: bool) {
        Input::was_key_released(self, key)
    }
}

} // verus!
