//! The sixteen keys of the machine on a computer keyboard.

use vstd::prelude::*;

verus! {

/// The key code of each of the sixteen keys, by key: the block `1234`,
/// `qwer`, `asdf`, `zxcv` of a keyboard stands for the keypad
///
/// ```text
/// 1 2 3 C
/// 4 5 6 D
/// 7 8 9 E
/// A 0 B F
/// ```
///
/// A key code is the character that the key types, as a number.
pub open spec fn keypad() -> Seq<i32> {
    seq![
        0x78i32, 0x31, 0x32, 0x33,
        0x71, 0x77, 0x65, 0x61,
        0x73, 0x64, 0x7A, 0x63,
        0x34, 0x72, 0x66, 0x76,
    ]
}

/// The key of the machine that a key code of the keyboard stands for, `None`
/// where it stands for none.
pub fn decode_key(code: i32) -> (key: Option<u8>)
    ensures
        match key {
            Some(k) => k < 16 && keypad()[k as int] == code,
            None => forall|k: int| 0 <= k < 16 ==> keypad()[k] != code,
        },
{
    match code {
        0x31 => Some(1),
        0x32 => Some(2),
        0x33 => Some(3),
        0x34 => Some(0xC),
        0x71 => Some(4),
        0x77 => Some(5),
        0x65 => Some(6),
        0x72 => Some(0xD),
        0x61 => Some(7),
        0x73 => Some(8),
        0x64 => Some(9),
        0x66 => Some(0xE),
        0x7A => Some(0xA),
        0x78 => Some(0),
        0x63 => Some(0xB),
        0x76 => Some(0xF),
        _ => None,
    }
}

} // verus!
