//! Memory of the machine: 4 KiB of linear RAM and the register file.

use vstd::prelude::*;

pub mod register;

verus! {

/// Number of bytes of RAM.
pub const RAM_SIZE: usize = 4096;

/// The machine's RAM.
pub type RAM = [u8; RAM_SIZE];

} // verus!
