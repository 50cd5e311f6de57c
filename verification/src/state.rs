//! The mathematical model of the machine: what a program can observe of it.

use vstd::prelude::*;
use crate::constants::{
    DISPLAY_SIZE, FLAG_REGISTER, FONT_DATA, KEY_COUNT, MEMORY_SIZE, REGISTER_COUNT, STACK_DEPTH,
    STARTING_ADDRESS,
};
use crate::memory::overwritten;

verus! {

/// The state of a machine as sequences and numbers.
///
/// `stack` holds the pending return addresses only, oldest first: its length is the
/// stack pointer. `display` holds the pixels row by row, `true` for a lit pixel, and
/// `keys` holds `true` for each key that is held down.
#[verifier::ext_equal]
pub struct MachineState {
    pub memory: Seq<u8>,
    pub registers: Seq<u8>,
    pub index: u16,
    pub pc: u16,
    pub stack: Seq<u16>,
    pub display: Seq<bool>,
    pub keys: Seq<bool>,
    pub delay: u8,
    pub sound: u8,
}

impl MachineState {
    /// The sizes that every machine has.
    pub open spec fn valid(self) -> bool {
        &&& self.memory.len() == MEMORY_SIZE
        &&& self.registers.len() == REGISTER_COUNT
        &&& self.stack.len() <= STACK_DEPTH
        &&& self.display.len() == DISPLAY_SIZE
        &&& self.keys.len() == KEY_COUNT
    }

    /// The state of a machine that was just created or reset: the font at the bottom of
    /// memory, the program counter at the starting address, everything else zero, unlit
    /// or released.
    pub open spec fn initial() -> MachineState {
        MachineState {
            memory: overwritten(Seq::new(MEMORY_SIZE as nat, |a: int| 0u8), 0, FONT_DATA@),
            registers: Seq::new(REGISTER_COUNT as nat, |i: int| 0u8),
            index: 0,
            pc: STARTING_ADDRESS,
            stack: Seq::empty(),
            display: Seq::new(DISPLAY_SIZE as nat, |p: int| false),
            keys: Seq::new(KEY_COUNT as nat, |k: int| false),
            delay: 0,
            sound: 0,
        }
    }

    /// The value of register `x`.
    pub open spec fn register(self, x: u8) -> u8 {
        self.registers[x as int]
    }

    /// The state with register `x` holding `value`.
    pub open spec fn with_register(self, x: u8, value: u8) -> MachineState {
        MachineState { registers: self.registers.update(x as int, value), ..self }
    }

    /// The state with the flag register holding 1 if `raised`, else 0.
    pub open spec fn with_flag(self, raised: bool) -> MachineState {
        MachineState {
            registers: self.registers.update(FLAG_REGISTER as int, if raised { 1u8 } else { 0u8 }),
            ..self
        }
    }

    /// The state with the program counter moved on by one instruction.
    pub open spec fn advanced(self) -> MachineState {
        MachineState { pc: (self.pc + 2) as u16, ..self }
    }

    /// The state with the next instruction skipped if `condition` holds.
    pub open spec fn skipping_if(self, condition: bool) -> MachineState {
        if condition {
            self.advanced()
        } else {
            self
        }
    }

    /// Whether the key whose number is `value` is held down. A number that names no key
    /// counts as a key that is not held down.
    pub open spec fn key_down(self, value: u8) -> bool {
        value < KEY_COUNT && self.keys[value as int]
    }

    /// The state after one tick of the timers: each counts down by one and stays at zero.
    pub open spec fn ticked(self) -> MachineState {
        MachineState {
            delay: if self.delay > 0 { (self.delay - 1) as u8 } else { 0 },
            sound: if self.sound > 0 { (self.sound - 1) as u8 } else { 0 },
            ..self
        }
    }

    /// The state with the key `key` held down or released.
    pub open spec fn with_key(self, key: int, pressed: bool) -> MachineState {
        MachineState { keys: self.keys.update(key, pressed), ..self }
    }

    /// The state with `program` copied into memory from the starting address on.
    pub open spec fn with_program(self, program: Seq<u8>) -> MachineState {
        MachineState { memory: overwritten(self.memory, STARTING_ADDRESS as int, program), ..self }
    }
}

} // verus!
