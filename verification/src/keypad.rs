//! The layout that puts the sixteen keys of the hexadecimal keypad on a
//! keyboard.

use vstd::prelude::*;

verus! {

/// The key codes of the keyboard keys that stand for the keypad keys 0 to
/// F, in that order: the character codes of `x`, `1`, `2`, `3`, `q`, `w`,
/// `e`, `a`, `s`, `d`, `z`, `c`, `4`, `r`, `f` and `v`. On a keyboard the
/// sixteen keys form the block from `1` to `v`, four keys wide.
pub open spec fn layout() -> Seq<i32> {
    seq![
        120i32, 49i32, 50i32, 51i32,
        113i32, 119i32, 101i32, 97i32,
        115i32, 100i32, 122i32, 99i32,
        52i32, 114i32, 102i32, 118i32,
    ]
}

/// The keypad key that the keyboard key with code `key` stands for, if it
/// stands for one.
pub fn key2btn(key: i32) -> (res: Option<usize>)
    ensures
        forall|k: int| 0 <= k < 16 && #[trigger] layout()[k] == key ==> res == Some(k as usize),
        res matches Some(k) ==> k < 16 && layout()[k as int] == key,
{
    match key {
        49 => Some(0x1),
        50 => Some(0x2),
        51 => Some(0x3),
        52 => Some(0xC),
        113 => Some(0x4),
        119 => Some(0x5),
        101 => Some(0x6),
        114 => Some(0xD),
        97 => Some(0x7),
        115 => Some(0x8),
        100 => Some(0x9),
        102 => Some(0xE),
        122 => Some(0xA),
        120 => Some(0x0),
        99 => Some(0xB),
        118 => Some(0xF),
        _ => None,
    }
}

} // verus!
