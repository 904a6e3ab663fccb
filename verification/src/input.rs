//! What the keyboard and the mouse give the game in one tick.

use crate::geometry::Position;
use vstd::prelude::*;

verus! {

/// A key press, as far as the game tells keys apart.  A letter is given
/// by its place in the alphabet, `0` for A to `25` for Z.
#[derive(Clone, Copy, PartialEq, Eq, Structural, Debug)]
pub enum Key {
    Left,
    Right,
    Up,
    Down,
    Numpad1,
    Numpad2,
    Numpad3,
    Numpad4,
    Numpad5,
    Numpad6,
    Numpad7,
    Numpad8,
    Numpad9,
    Key1,
    Space,
    Escape,
    Period,
    Letter(u8),
    Other,
}

/// Place of the letter B in the alphabet.
pub const LETTER_B: u8 = 1;

/// Place of the letter D in the alphabet.
pub const LETTER_D: u8 = 3;

/// Place of the letter G in the alphabet.
pub const LETTER_G: u8 = 6;

/// Place of the letter H in the alphabet.
pub const LETTER_H: u8 = 7;

/// Place of the letter I in the alphabet.
pub const LETTER_I: u8 = 8;

/// Place of the letter J in the alphabet.
pub const LETTER_J: u8 = 9;

/// Place of the letter K in the alphabet.
pub const LETTER_K: u8 = 10;

/// Place of the letter L in the alphabet.
pub const LETTER_L: u8 = 11;

/// Place of the letter N in the alphabet.
pub const LETTER_N: u8 = 13;

/// Place of the letter R in the alphabet.
pub const LETTER_R: u8 = 17;

/// Place of the letter U in the alphabet.
pub const LETTER_U: u8 = 20;

/// Place of the letter Y in the alphabet.
pub const LETTER_Y: u8 = 24;

/// The menu entry that a key selects: the letter's place in the alphabet,
/// and `-1` for any other key.
pub open spec fn letter_option(key: Key) -> int {
    match key {
        Key::Letter(n) => n as int,
        _ => -1,
    }
}

/// The menu entry that `key` selects, `-1` if it selects none.
pub fn letter_to_option(key: Key) -> (selection: i32)
    ensures
        selection == letter_option(key),
{
    match key {
        Key::Letter(n) => n as i32,
        _ => -1,
    }
}

/// What the player did since the last tick.
#[derive(Clone, Copy, PartialEq, Eq, Structural, Debug)]
pub struct Input {
    pub key: Option<Key>,
    pub mouse_pos: Position,
    pub left_click: bool,
}

} // verus!
