//! Keyboard keys as the chord logic sees them, and the macOS virtual
//! keycode table that feeds it.

use vstd::prelude::*;

verus! {

/// A physical key. Only the keys that the chord logic or the keycode table
/// can name have their own variant; anything else is `Unknown(code)`.
#[derive(Debug, Clone, Copy, PartialEq, Eq, Structural)]
pub enum Key {
    KeyA, KeyB, KeyC, KeyD, KeyE, KeyF, KeyG, KeyH, KeyI, KeyJ, KeyK, KeyL, KeyM,
    KeyN, KeyO, KeyP, KeyQ, KeyR, KeyS, KeyT, KeyU, KeyV, KeyW, KeyX, KeyY, KeyZ,
    Num0, Num1, Num2, Num3, Num4, Num5, Num6, Num7, Num8, Num9,
    Tab, Escape, Return, Backspace, Space,
    LeftArrow, RightArrow, DownArrow, UpArrow,
    MetaLeft, MetaRight, Alt, AltGr, ShiftLeft, ShiftRight,
    Unknown(u32),
}

/// The slot digit a key names, if it is one of the digit keys 1-9.
pub open spec fn spec_key_to_digit(key: Key) -> Option<usize> {
    match key {
        Key::Num1 => Some(1usize),
        Key::Num2 => Some(2usize),
        Key::Num3 => Some(3usize),
        Key::Num4 => Some(4usize),
        Key::Num5 => Some(5usize),
        Key::Num6 => Some(6usize),
        Key::Num7 => Some(7usize),
        Key::Num8 => Some(8usize),
        Key::Num9 => Some(9usize),
        _ => None,
    }
}

/// Digit keys 1-9 name the static slot of the same number; `Num0` and every
/// other key name none.
pub fn key_to_digit(key: &Key) -> (r: Option<usize>)
    ensures
        r == spec_key_to_digit(*key),
        r matches Some(d) ==> 1 <= d <= 9,
{
    match key {
        Key::Num1 => Some(1),
        Key::Num2 => Some(2),
        Key::Num3 => Some(3),
        Key::Num4 => Some(4),
        Key::Num5 => Some(5),
        Key::Num6 => Some(6),
        Key::Num7 => Some(7),
        Key::Num8 => Some(8),
        Key::Num9 => Some(9),
        _ => None,
    }
}

} // verus!
