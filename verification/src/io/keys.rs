//! The hex keypad, as the machine sees it.

use vstd::prelude::*;

verus! {

/// A key of the 4x4 hex keypad: 0x0 to 0xF.
pub type Key = u8;

/// Something that can tell which keys of the keypad are held down. The machine
/// asks anew in every cycle and keeps no answer; nothing is assumed of what
/// an implementation answers, nor that it answers the same twice.
pub trait Keyboard {
    /// Asks whether `key` is held down.
    fn is_key_pressed(&self, key: Key) -> bool;
}

/// The key of a PC keyboard that stands for `key`: the block `1234`, `QWER`,
/// `ASDF`, `ZXCV` laid over the keypad `123C`, `456D`, `789E`, `A0BF`.
pub open spec fn spec_pc_key(key: Key) -> Option<char> {
    if key == 0x1 {
        Some('1')
    } else if key == 0x2 {
        Some('2')
    } else if key == 0x3 {
        Some('3')
    } else if key == 0xC {
        Some('4')
    } else if key == 0x4 {
        Some('Q')
    } else if key == 0x5 {
        Some('W')
    } else if key == 0x6 {
        Some('E')
    } else if key == 0xD {
        Some('R')
    } else if key == 0x7 {
        Some('A')
    } else if key == 0x8 {
        Some('S')
    } else if key == 0x9 {
        Some('D')
    } else if key == 0xE {
        Some('F')
    } else if key == 0xA {
        Some('Z')
    } else if key == 0x0 {
        Some('X')
    } else if key == 0xB {
        Some('C')
    } else if key == 0xF {
        Some('V')
    } else {
        None
    }
}

/// The PC key for `key`, and none for a value that is no keypad key.
pub fn pc_key(key: Key) -> (mapped: Option<char>)
    ensures
        mapped == spec_pc_key(key),
        mapped is Some <==> key <= 0xF,
{
    match key {
        0x1 => Some('1'),
        0x2 => Some('2'),
        0x3 => Some('3'),
        0xC => Some('4'),
        0x4 => Some('Q'),
        0x5 => Some('W'),
        0x6 => Some('E'),
        0xD => Some('R'),
        0x7 => Some('A'),
        0x8 => Some('S'),
        0x9 => Some('D'),
        0xE => Some('F'),
        0xA => Some('Z'),
        0x0 => Some('X'),
        0xB => Some('C'),
        0xF => Some('V'),
        _ => None,
    }
}

/// No PC key stands for two keypad keys.
pub proof fn lemma_pc_key_injective(a: Key, b: Key)
    requires
        spec_pc_key(a) is Some,
        spec_pc_key(a) == spec_pc_key(b),
    ensures
        a == b,
{
}

} // verus!
