//! The ways in which an operation of the machine can fail.

use vstd::prelude::*;

verus! {

/// Failure of an operation. A failed operation leaves the machine as it was.
#[derive(Clone, Copy, Debug, PartialEq, Eq, Structural)]
pub enum Chip8Error {
    /// The program does not fit between the starting address and the end of memory.
    ProgramTooLarge,
    /// The keypad has no key with the given index.
    InvalidKeyIndex,
    /// The instruction word matches no known instruction.
    IllegalInstruction(u16),
    /// A call was made with the call stack already full.
    StackOverflow,
    /// A return was made with the call stack empty.
    StackUnderflow,
    /// An instruction fetch or an operand access lies outside memory.
    MemoryFault,
}

} // verus!
