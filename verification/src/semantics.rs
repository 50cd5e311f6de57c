//! What one cycle of the machine does: fetch an instruction word, decode it, execute it.

use vstd::prelude::*;
use crate::constants::{
    DISPLAY_HEIGHT, DISPLAY_SIZE, DISPLAY_WIDTH, MEMORY_SIZE, STACK_DEPTH,
};
use crate::display::Sprite;
use crate::error::Chip8Error;
use crate::instruction::Instruction;
use crate::keypad::lowest_pressed;
use crate::memory::overwritten;
use crate::state::MachineState;

verus! {

/// The hundreds, tens and ones digits of a byte.
pub open spec fn decimal_digits(value: u8) -> (u8, u8, u8) {
    (value / 100, (value / 10) % 10, value % 10)
}

/// The instruction word at the program counter, high byte first, unless one of its two
/// bytes lies outside memory.
pub open spec fn fetch(s: MachineState) -> Option<u16> {
    if s.pc + 1 < MEMORY_SIZE {
        Some((s.memory[s.pc as int] * 0x100 + s.memory[s.pc + 1]) as u16)
    } else {
        None
    }
}

/// The sprite that the instruction `Dxyn` draws in state `s`.
pub open spec fn sprite_of(s: MachineState, x: u8, y: u8, rows: u8) -> Sprite {
    Sprite {
        address: s.index,
        rows,
        left: s.register(x) % (DISPLAY_WIDTH as u8),
        top: s.register(y) % (DISPLAY_HEIGHT as u8),
    }
}

/// The state after `instruction` was executed in state `s`, whose program counter has
/// already moved past the instruction, or the reason for which it cannot be executed.
///
/// `random` is the byte that the instruction `Cxnn` draws; no other instruction reads it.
pub open spec fn execute(s: MachineState, instruction: Instruction, random: u8) -> Result<
    MachineState,
    Chip8Error,
> {
    match instruction {
        Instruction::Nop => Ok(s),
        Instruction::ClearScreen => Ok(
            MachineState { display: Seq::new(DISPLAY_SIZE as nat, |pixel: int| false), ..s },
        ),
        Instruction::Return => if s.stack.len() == 0 {
            Err(Chip8Error::StackUnderflow)
        } else {
            Ok(MachineState { pc: s.stack.last(), stack: s.stack.drop_last(), ..s })
        },
        Instruction::Jump { address } => Ok(MachineState { pc: address, ..s }),
        Instruction::Call { address } => if s.stack.len() >= STACK_DEPTH {
            Err(Chip8Error::StackOverflow)
        } else {
            Ok(MachineState { pc: address, stack: s.stack.push(s.pc), ..s })
        },
        Instruction::SkipIfEqualByte { x, byte } => Ok(s.skipping_if(s.register(x) == byte)),
        Instruction::SkipIfNotEqualByte { x, byte } => Ok(s.skipping_if(s.register(x) != byte)),
        Instruction::SkipIfEqual { x, y } => Ok(s.skipping_if(s.register(x) == s.register(y))),
        Instruction::LoadByte { x, byte } => Ok(s.with_register(x, byte)),
        Instruction::AddByte { x, byte } => Ok(
            s.with_register(x, ((s.register(x) + byte) % 0x100) as u8),
        ),
        Instruction::Copy { x, y } => Ok(s.with_register(x, s.register(y))),
        Instruction::Or { x, y } => Ok(s.with_register(x, s.register(x) | s.register(y))),
        Instruction::And { x, y } => Ok(s.with_register(x, s.register(x) & s.register(y))),
        Instruction::Xor { x, y } => Ok(s.with_register(x, s.register(x) ^ s.register(y))),
        Instruction::AddCarry { x, y } => {
            let sum = s.register(x) + s.register(y);
            Ok(s.with_register(x, (sum % 0x100) as u8).with_flag(sum >= 0x100))
        },
        Instruction::SubBorrow { x, y } => {
            let difference = s.register(x) - s.register(y);
            Ok(s.with_register(x, (difference % 0x100) as u8).with_flag(difference >= 0))
        },
        Instruction::ShiftRight { x } => {
            let flagged = s.with_flag(s.register(x) % 2 == 1);
            Ok(flagged.with_register(x, flagged.register(x) / 2))
        },
        Instruction::SubReverse { x, y } => {
            let difference = s.register(y) - s.register(x);
            Ok(s.with_register(x, (difference % 0x100) as u8).with_flag(difference >= 0))
        },
        Instruction::ShiftLeft { x } => {
            let flagged = s.with_flag(s.register(x) >= 0x80);
            Ok(flagged.with_register(x, ((flagged.register(x) * 2) % 0x100) as u8))
        },
        Instruction::SkipIfNotEqual { x, y } => Ok(s.skipping_if(s.register(x) != s.register(y))),
        Instruction::LoadIndex { address } => Ok(MachineState { index: address, ..s }),
        Instruction::JumpOffset { address } => Ok(
            MachineState { pc: (address + s.register(0)) as u16, ..s },
        ),
        Instruction::Random { x, byte } => Ok(s.with_register(x, random & byte)),
        Instruction::Draw { x, y, rows } => {
            let sprite = sprite_of(s, x, y, rows);
            if sprite.in_memory() {
                Ok(
                    MachineState { display: sprite.drawn(s.memory, s.display), ..s }.with_flag(
                        sprite.collides(s.memory, s.display),
                    ),
                )
            } else {
                Err(Chip8Error::MemoryFault)
            }
        },
        Instruction::SkipIfKey { x } => Ok(s.skipping_if(s.key_down(s.register(x)))),
        Instruction::SkipIfNotKey { x } => Ok(s.skipping_if(!s.key_down(s.register(x)))),
        Instruction::ReadDelay { x } => Ok(s.with_register(x, s.delay)),
        Instruction::WaitKey { x } => match lowest_pressed(s.keys) {
            Some(key) => Ok(s.with_register(x, key as u8)),
            None => Ok(MachineState { pc: (s.pc - 2) as u16, ..s }),
        },
        Instruction::SetDelay { x } => Ok(MachineState { delay: s.register(x), ..s }),
        Instruction::SetSound { x } => Ok(MachineState { sound: s.register(x), ..s }),
        Instruction::AddIndex { x } => Ok(
            MachineState { index: ((s.index + s.register(x)) % 0x10000) as u16, ..s },
        ),
        Instruction::FontAddress { x } => Ok(
            MachineState { index: (5 * (s.register(x) % 0x10)) as u16, ..s },
        ),
        Instruction::StoreDecimal { x } => if s.index + 2 < MEMORY_SIZE {
            let (hundreds, tens, ones) = decimal_digits(s.register(x));
            Ok(
                MachineState {
                    memory: s.memory.update(s.index as int, hundreds).update(
                        s.index + 1,
                        tens,
                    ).update(s.index + 2, ones),
                    ..s
                },
            )
        } else {
            Err(Chip8Error::MemoryFault)
        },
        Instruction::StoreRegisters { x } => if s.index + x < MEMORY_SIZE {
            Ok(
                MachineState {
                    memory: overwritten(s.memory, s.index as int, s.registers.take(x + 1)),
                    ..s
                },
            )
        } else {
            Err(Chip8Error::MemoryFault)
        },
        Instruction::LoadRegisters { x } => if s.index + x < MEMORY_SIZE {
            Ok(
                MachineState {
                    registers: overwritten(
                        s.registers,
                        0,
                        s.memory.subrange(s.index as int, s.index + x + 1),
                    ),
                    ..s
                },
            )
        } else {
            Err(Chip8Error::MemoryFault)
        },
    }
}

/// The state after the instruction that `opcode` encodes was executed in state `s`, or
/// the reason for which it cannot be: the word encodes no instruction, or the
/// instruction fails.
pub open spec fn execute_word(s: MachineState, opcode: u16, random: u8) -> Result<
    MachineState,
    Chip8Error,
> {
    match Instruction::decode_spec(opcode) {
        Some(instruction) => execute(s, instruction, random),
        None => Err(Chip8Error::IllegalInstruction(opcode)),
    }
}

/// The state after one cycle in state `s`, or the reason for which the cycle fails.
///
/// The cycle fetches the instruction word at the program counter, moves the program
/// counter past it, decodes the word and executes the instruction.
pub open spec fn step(s: MachineState, random: u8) -> Result<MachineState, Chip8Error> {
    match fetch(s) {
        Some(opcode) => execute_word(s.advanced(), opcode, random),
        None => Err(Chip8Error::MemoryFault),
    }
}

/// Whether an operation that was to take `before` to `outcome` has done so: on success
/// the machine is in the new state, on failure it is as it was and reports the error.
pub open spec fn carried_out(
    before: MachineState,
    outcome: Result<MachineState, Chip8Error>,
    after: MachineState,
    result: Result<(), Chip8Error>,
) -> bool {
    match outcome {
        Ok(next) => result is Ok && after =~= next,
        Err(error) => result == Err::<(), Chip8Error>(error) && after =~= before,
    }
}

/// The state after one cycle for each byte of `randoms`, in order, each cycle with its
/// byte as the one drawn, or the reason for which the first cycle that fails does so.
pub open spec fn run(s: MachineState, randoms: Seq<u8>) -> Result<MachineState, Chip8Error>
    decreases randoms.len(),
{
    if randoms.len() == 0 {
        Ok(s)
    } else {
        match run(s, randoms.drop_last()) {
            Ok(reached) => step(reached, randoms.last()),
            Err(error) => Err(error),
        }
    }
}

/// Whether a frame of `cycles` cycles and one tick of the timers, begun in `before`
/// with `randoms` as the bytes drawn, has left the machine in `after` with `result`.
///
/// A frame in which every cycle succeeds ends with the tick. A frame in which a cycle
/// fails ends there: the machine is as the cycles before left it, the timers have not
/// ticked, and the result is the error of the cycle that failed.
pub open spec fn frame_carried_out(
    before: MachineState,
    cycles: nat,
    randoms: Seq<u8>,
    after: MachineState,
    result: Result<(), Chip8Error>,
) -> bool {
    match result {
        Ok(()) => randoms.len() == cycles && (run(before, randoms) matches Ok(reached)
            && after =~= reached.ticked()),
        Err(error) => randoms.len() < cycles && (run(before, randoms) matches Ok(reached)
            && after =~= reached) && forall|random: u8|
            #[trigger] step(after, random) == Err::<MachineState, Chip8Error>(error),
    }
}

/// Whether a cycle fails, and with which error, does not depend on the byte drawn.
pub proof fn lemma_failure_ignores_random(s: MachineState, random: u8, other: u8)
    requires
        step(s, random) is Err,
    ensures
        step(s, other) == step(s, random),
{
}

} // verus!
