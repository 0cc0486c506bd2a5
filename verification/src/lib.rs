//! A CHIP-8 virtual machine: decoder, executor, frame buffer and run-loop control.

pub mod mem;
pub mod logic;
pub mod io;
pub mod exec;
pub mod text;
