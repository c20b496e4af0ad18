//! The keys that a game can ask about.

use vstd::prelude::*;

verus! {

/// A key of the keyboard.
#[derive(Copy, Clone, Debug, PartialEq, Eq, Hash, Structural)]
pub enum Key {
    Num1,
    Num2,
    Num3,
    Num4,
    Num5,
    Num6,
    Num7,
    Num8,
    Num9,
    Num0,
    A,
    B,
    C,
    D,
    E,
    F,
    G,
    H,
    I,
    J,
    K,
    L,
    M,
    N,
    O,
    P,
    Q,
    R,
    S,
    T,
    U,
    V,
    W,
    X,
    Y,
    Z,
    Up,
    Down,
    Left,
    Right,
    Space,
}

/// The number of keys.
pub const KEY_COUNT: u64 = 41;

impl Key {
    /// The number of the key in the order of declaration, from 0.
    pub open spec fn spec_code(self) -> u64 {
        match self {
            Key::Num1 => 0,
            Key::Num2 => 1,
            Key::Num3 => 2,
            Key::Num4 => 3,
            Key::Num5 => 4,
            Key::Num6 => 5,
            Key::Num7 => 6,
            Key::Num8 => 7,
            Key::Num9 => 8,
            Key::Num0 => 9,
            Key::A => 10,
            Key::B => 11,
            Key::C => 12,
            Key::D => 13,
            Key::E => 14,
            Key::F => 15,
            Key::G => 16,
            Key::H => 17,
            Key::I => 18,
            Key::J => 19,
            Key::K => 20,
            Key::L => 21,
            Key::M => 22,
            Key::N => 23,
            Key::O => 24,
            Key::P => 25,
            Key::Q => 26,
            Key::R => 27,
            Key::S => 28,
            Key::T => 29,
            Key::U => 30,
            Key::V => 31,
            Key::W => 32,
            Key::X => 33,
            Key::Y => 34,
            Key::Z => 35,
            Key::Up => 36,
            Key::Down => 37,
            Key::Left => 38,
            Key::Right => 39,
            Key::Space => 40,
        }
    }

    /// The key with the number `code`.
    pub open spec fn spec_from_code(code: u64) -> Option<Key> {
        if code == 0 {
            Some(Key::Num1)
        } else if code == 1 {
            Some(Key::Num2)
        } else if code == 2 {
            Some(Key::Num3)
        } else if code == 3 {
            Some(Key::Num4)
        } else if code == 4 {
            Some(Key::Num5)
        } else if code == 5 {
            Some(Key::Num6)
        } else if code == 6 {
            Some(Key::Num7)
        } else if code == 7 {
            Some(Key::Num8)
        } else if code == 8 {
            Some(Key::Num9)
        } else if code == 9 {
            Some(Key::Num0)
        } else if code == 10 {
            Some(Key::A)
        } else if code == 11 {
            Some(Key::B)
        } else if code == 12 {
            Some(Key::C)
        } else if code == 13 {
            Some(Key::D)
        } else if code == 14 {
            Some(Key::E)
        } else if code == 15 {
            Some(Key::F)
        } else if code == 16 {
            Some(Key::G)
        } else if code == 17 {
            Some(Key::H)
        } else if code == 18 {
            Some(Key::I)
        } else if code == 19 {
            Some(Key::J)
        } else if code == 20 {
            Some(Key::K)
        } else if code == 21 {
            Some(Key::L)
        } else if code == 22 {
            Some(Key::M)
        } else if code == 23 {
            Some(Key::N)
        } else if code == 24 {
            Some(Key::O)
        } else if code == 25 {
            Some(Key::P)
        } else if code == 26 {
            Some(Key::Q)
        } else if code == 27 {
            Some(Key::R)
        } else if code == 28 {
            Some(Key::S)
        } else if code == 29 {
            Some(Key::T)
        } else if code == 30 {
            Some(Key::U)
        } else if code == 31 {
            Some(Key::V)
        } else if code == 32 {
            Some(Key::W)
        } else if code == 33 {
            Some(Key::X)
        } else if code == 34 {
            Some(Key::Y)
        } else if code == 35 {
            Some(Key::Z)
        } else if code == 36 {
            Some(Key::Up)
        } else if code == 37 {
            Some(Key::Down)
        } else if code == 38 {
            Some(Key::Left)
        } else if code == 39 {
            Some(Key::Right)
        } else if code == 40 {
            Some(Key::Space)
        } else {
            None
        }
    }

    /// The number of the key in the order of declaration, from 0.
    #[verifier::when_used_as_spec(spec_code)]
    pub fn code(self) -> (code: u64)
        ensures
            code == self.spec_code(),
            code < KEY_COUNT,
    {
        match self {
            Key::Num1 => 0,
            Key::Num2 => 1,
            Key::Num3 => 2,
            Key::Num4 => 3,
            Key::Num5 => 4,
            Key::Num6 => 5,
            Key::Num7 => 6,
            Key::Num8 => 7,
            Key::Num9 => 8,
            Key::Num0 => 9,
            Key::A => 10,
            Key::B => 11,
            Key::C => 12,
            Key::D => 13,
            Key::E => 14,
            Key::F => 15,
            Key::G => 16,
            Key::H => 17,
            Key::I => 18,
            Key::J => 19,
            Key::K => 20,
            Key::L => 21,
            Key::M => 22,
            Key::N => 23,
            Key::O => 24,
            Key::P => 25,
            Key::Q => 26,
            Key::R => 27,
            Key::S => 28,
            Key::T => 29,
            Key::U => 30,
            Key::V => 31,
            Key::W => 32,
            Key::X => 33,
            Key::Y => 34,
            Key::Z => 35,
            Key::Up => 36,
            Key::Down => 37,
            Key::Left => 38,
            Key::Right => 39,
            Key::Space => 40,
        }
    }

    /// The key with the number `code`, if there is one.
    #[verifier::when_used_as_spec(spec_from_code)]
    pub fn from_code(code: u64) -> (key: Option<Key>)
        ensures
            key == Key::spec_from_code(code),
    {
        if code == 0 {
            Some(Key::Num1)
        } else if code == 1 {
            Some(Key::Num2)
        } else if code == 2 {
            Some(Key::Num3)
        } else if code == 3 {
            Some(Key::Num4)
        } else if code == 4 {
            Some(Key::Num5)
        } else if code == 5 {
            Some(Key::Num6)
        } else if code == 6 {
            Some(Key::Num7)
        } else if code == 7 {
            Some(Key::Num8)
        } else if code == 8 {
            Some(Key::Num9)
        } else if code == 9 {
            Some(Key::Num0)
        } else if code == 10 {
            Some(Key::A)
        } else if code == 11 {
            Some(Key::B)
        } else if code == 12 {
            Some(Key::C)
        } else if code == 13 {
            Some(Key::D)
        } else if code == 14 {
            Some(Key::E)
        } else if code == 15 {
            Some(Key::F)
        } else if code == 16 {
            Some(Key::G)
        } else if code == 17 {
            Some(Key::H)
        } else if code == 18 {
            Some(Key::I)
        } else if code == 19 {
            Some(Key::J)
        } else if code == 20 {
            Some(Key::K)
        } else if code == 21 {
            Some(Key::L)
        } else if code == 22 {
            Some(Key::M)
        } else if code == 23 {
            Some(Key::N)
        } else if code == 24 {
            Some(Key::O)
        } else if code == 25 {
            Some(Key::P)
        } else if code == 26 {
            Some(Key::Q)
        } else if code == 27 {
            Some(Key::R)
        } else if code == 28 {
            Some(Key::S)
        } else if code == 29 {
            Some(Key::T)
        } else if code == 30 {
            Some(Key::U)
        } else if code == 31 {
            Some(Key::V)
        } else if code == 32 {
            Some(Key::W)
        } else if code == 33 {
            Some(Key::X)
        } else if code == 34 {
            Some(Key::Y)
        } else if code == 35 {
            Some(Key::Z)
        } else if code == 36 {
            Some(Key::Up)
        } else if code == 37 {
            Some(Key::Down)
        } else if code == 38 {
            Some(Key::Left)
        } else if code == 39 {
            Some(Key::Right)
        } else if code == 40 {
            Some(Key::Space)
        } else {
            None
        }
    }

    /// Keys and the numbers below `KEY_COUNT` stand for each other.
    pub proof fn lemma_codes(key: Key, code: u64)
        ensures
            key.code() < KEY_COUNT,
            Key::from_code(key.code()) == Some(key),
            Key::from_code(code) is Some <==> code < KEY_COUNT,
            Key::from_code(code) matches Some(k) ==> k.code() == code,
    {
    }
}

} // verus!
