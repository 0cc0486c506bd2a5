//! Running programs: the executor, the processor cycle and the run loop's control.

pub mod cpu;
pub mod executor;
pub mod runtime;
