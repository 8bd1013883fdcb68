//! Structured errors raised by the machine.

use vstd::prelude::*;

verus! {

/// What went wrong.
#[derive(Clone, Copy, Debug, PartialEq, Eq, Structural)]
pub enum FaultKind {
    /// The program does not fit between the load address and the end of memory.
    ProgramTooLarge { len: usize },
    /// A call was attempted with the stack already at full depth.
    StackOverflow { address: u16 },
    /// A return was attempted with an empty stack.
    StackUnderflow,
    /// The opcode matches no instruction.
    UnknownOpcode,
    /// An instruction fetch, a sprite read or a register transfer reached
    /// outside the memory it is allowed to touch.
    AddressOutOfRange { address: u16 },
}

/// A fatal condition together with the opcode that raised it and the program
/// counter at which it was raised.
#[derive(Clone, Copy, Debug, PartialEq, Eq, Structural)]
pub struct Fault {
    pub kind: FaultKind,
    pub opcode: u16,
    pub pc: u16,
}

} // verus!
