//! What the machine shows and what it is told: the frame buffer and the keypad.

pub mod keys;
pub mod screen;
