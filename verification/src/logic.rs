//! The instruction set and its decoder.

pub mod decoder;
pub mod instruction;
