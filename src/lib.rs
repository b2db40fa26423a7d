//! A CHIP-8 virtual machine core: memory, registers, timers, display and the
//! fetch-decode-execute engine, with each instruction's effect stated over a
//! mathematical model of the machine.
use vstd::prelude::*;

pub mod cpu;
pub mod display;
pub mod error;
pub mod laws;
pub mod machine;
pub mod memory;
pub mod registers;
pub mod timers;
pub mod util;

pub use cpu::CPU;
pub use error::EmulatorError;
pub use machine::StepEvent;

verus! {

} // verus!
