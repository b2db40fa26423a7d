//! The ways an operation of the machine can fail.
use vstd::prelude::*;

verus! {

/// Why an operation of the machine failed. Every failure leaves the machine
/// as it was before the operation.
#[derive(Debug, Clone, Copy, PartialEq, Eq, Structural)]
pub enum EmulatorError {
    /// Running was asked for before both the font and the program regions
    /// held a nonzero byte.
    NoProgramLoaded,
    /// The word at `pc` matched no instruction.
    InvalidOpcode { pc: usize, opcode: u16 },
    /// A register index outside `0..16`.
    InvalidRegister(u8),
    /// An address, or the program counter, left the memory.
    OutOfBounds,
    /// A call with the call stack already full.
    StackOverflow,
    /// A return with the call stack empty.
    StackUnderflow,
}

} // verus!
