use apparatus::engine::input::Input as GameInput;
use apparatus::engine::key::Key;
use apparatus::engine::mouse::MouseButton;
use apparatus::platform::input::{ButtonState, Input};

/// An input in which `key` has the state given and every other key is up.
fn input_with_key(key: Key, state: ButtonState) -> Input {
    let mut input = Input::new();
    if state.was_down {
        input.process_input(&vec![key], &vec![], 0, 0, 0);
    } else {
        input.process_input(&vec![], &vec![], 0, 0, 0);
    }
    if state.is_down {
        input.process_input(&vec![key], &vec![], 0, 0, 0);
    } else {
        input.process_input(&vec![], &vec![], 0, 0, 0);
    }
    input
}

/// An input in which `button` has the state given and every other button is up.
fn input_with_button(button: MouseButton, state: ButtonState) -> Input {
    let mut input = Input::new();
    if state.was_down {
        input.process_input(&vec![], &vec![button], 0, 0, 0);
    } else {
        input.process_input(&vec![], &vec![], 0, 0, 0);
    }
    if state.is_down {
        input.process_input(&vec![], &vec![button], 0, 0, 0);
    } else {
        input.process_input(&vec![], &vec![], 0, 0, 0);
    }
    input
}

#[test]
fn key_not_pressed_is_not_pressed() {
    let input = Input::new();

    assert!(!input.is_key_pressed(Key::Up));
}

#[test]
fn key_pressed_is_pressed() {
    let key_state = ButtonState {
        is_down: true,
        was_down: false,
    };
    let input = input_with_key(Key::Up, key_state);

    assert!(input.is_key_pressed(Key::Up));
}

#[test]
fn key_pressed_is_not_held() {
    let key_state = ButtonState {
        is_down: true,
        was_down: false,
    };
    let input = input_with_key(Key::Up, key_state);

    assert!(!input.is_key_held(Key::Up));
}

#[test]
fn key_pressed_is_not_released() {
    let key_state = ButtonState {
        is_down: true,
        was_down: false,
    };
    let input = input_with_key(Key::Up, key_state);

    assert!(!input.was_key_released(Key::Up));
}

#[test]
fn key_not_pressed_is_not_held() {
    let input = Input::new();

    assert!(!input.is_key_held(Key::Up));
}

#[test]
fn key_pressed_is_held() {
    let key_state = ButtonState {
        is_down: true,
        was_down: true,
    };
    let input = input_with_key(Key::Up, key_state);

    assert!(input.is_key_held(Key::Up));
}

#[test]
fn key_not_pressed_is_not_released() {
    let input = Input::new();

    assert!(!input.was_key_released(Key::Space));
}

#[test]
fn key_held_is_not_released() {
    let key_state = ButtonState {
        is_down: true,
        was_down: true,
    };
    let input = input_with_key(Key::Space, key_state);

    assert!(!input.was_key_released(Key::Space));
}

#[test]
fn key_previously_held_is_released() {
    let key_state = ButtonState {
        is_down: false,
        was_down: true,
    };
    let input = input_with_key(Key::Space, key_state);

    assert!(input.was_key_released(Key::Space));
}

#[test]
fn mouse_button_not_pressed_is_not_held() {
    let input = Input::new();

    assert!(!input.is_mouse_button_held(MouseButton::Left));
}

#[test]
fn mouse_button_pressed_is_held() {
    let button_state = ButtonState {
        is_down: true,
        was_down: true,
    };
    let input = input_with_button(MouseButton::Left, button_state);

    assert!(input.is_mouse_button_held(MouseButton::Left));
}

#[test]
fn mouse_button_not_pressed_is_not_released() {
    let input = Input::new();

    assert!(!input.was_mouse_button_released(MouseButton::Left));
}

#[test]
fn mouse_button_held_is_not_released() {
    let button_state = ButtonState {
        is_down: true,
        was_down: true,
    };
    let input = input_with_button(MouseButton::Left, button_state);

    assert!(!input.was_mouse_button_released(MouseButton::Left));
}

#[test]
fn mouse_button_previously_held_is_released() {
    let button_state = ButtonState {
        is_down: false,
        was_down: true,
    };
    let input = input_with_button(MouseButton::Left, button_state);

    assert!(input.was_mouse_button_released(MouseButton::Left));
}

#[test]
fn button_state_holds_what_it_was_made_of() {
    assert_eq!(ButtonState::new(true, false), ButtonState { is_down: true, was_down: false });
    assert_eq!(ButtonState::default(), ButtonState { is_down: false, was_down: false });
}

#[test]
fn process_input_follows_each_key_on_its_own() {
    let mut input = Input::new();
    input.process_input(&vec![Key::A, Key::Num0], &vec![MouseButton::Right], 3, 4, 100);
    assert!(input.is_key_pressed(Key::A));
    assert!(input.is_key_pressed(Key::Num0));
    assert!(!input.is_key_pressed(Key::B));
    input.process_input(&vec![Key::A, Key::B], &vec![MouseButton::Right], 3, 4, 100);
    assert!(input.is_key_held(Key::A));
    assert!(input.is_key_pressed(Key::B));
    assert!(input.was_key_released(Key::Num0));
    assert!(input.is_mouse_button_held(MouseButton::Right));
    assert!(!input.is_mouse_button_held(MouseButton::Left));
    input.process_input(&vec![], &vec![], 3, 4, 100);
    assert!(input.was_key_released(Key::A));
    assert!(input.was_key_released(Key::B));
    assert!(!input.was_key_released(Key::Num0));
    assert!(input.was_mouse_button_released(MouseButton::Right));
}

#[test]
fn process_input_counts_the_mouse_from_the_bottom() {
    let mut input = Input::new();
    assert_eq!((input.mouse_pos_x(), input.mouse_pos_y()), (0, 0));
    input.process_input(&vec![], &vec![], 30, 40, 100);
    assert_eq!((input.mouse_pos_x(), input.mouse_pos_y()), (30, 60));
    input.process_input(&vec![], &vec![], -5, 140, 100);
    assert_eq!((input.mouse_pos_x(), input.mouse_pos_y()), (-5, -40));
}

#[test]
fn game_input_asks_the_same_state() {
    fn held(input: &impl GameInput, key: Key) -> bool {
        input.is_key_held(key)
    }
    fn released(input: &impl GameInput, key: Key) -> bool {
        input.was_key_released(key)
    }
    let input = input_with_key(Key::Left, ButtonState::new(true, true));
    assert!(held(&input, Key::Left));
    assert!(!released(&input, Key::Left));
    let input = input_with_key(Key::Left, ButtonState::new(false, true));
    assert!(!held(&input, Key::Left));
    assert!(released(&input, Key::Left));
}

#[test]
fn keys_and_codes_stand_for_each_other() {
    for code in 0..41 {
        let key = Key::from_code(code).unwrap();
        assert_eq!(key.code(), code);
    }
    assert_eq!(Key::from_code(41), None);
    assert_eq!(Key::Num1.code(), 0);
    assert_eq!(Key::Space.code(), 40);
    for code in 0..3 {
        assert_eq!(MouseButton::from_code(code).unwrap().code(), code);
    }
    assert_eq!(MouseButton::from_code(3), None);
}
