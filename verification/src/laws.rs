//! What holds of the machine in every state, stated over what an instruction and a cycle do.

use vstd::prelude::*;
use crate::constants::{
    DISPLAY_SIZE, FONT_DATA, FONT_DATA_SIZE, MEMORY_SIZE, STACK_DEPTH, STARTING_ADDRESS,
};
use crate::error::Chip8Error;
use crate::instruction::Instruction;
use crate::keypad::{any_pressed, is_lowest_pressed, lemma_lowest_pressed_is, lowest_pressed};
use crate::semantics::{decimal_digits, execute, fetch, sprite_of, step};
use crate::state::MachineState;

verus! {

/// Whether the instruction that a cycle in state `s` fetches is `instruction`.
pub open spec fn fetches(s: MachineState, instruction: Instruction) -> bool {
    fetch(s) matches Some(opcode) && Instruction::decode_spec(opcode) == Some(instruction)
}

/// A machine that was just created or reset has every register, the index register, the
/// stack pointer and both timers at zero, the program counter at the starting address,
/// the display dark, no key held down, and the font table in the first bytes of memory
/// with zeros after it.
pub proof fn lemma_initial_state()
    ensures
        MachineState::initial().valid(),
        forall|x: u8| x < 16 ==> MachineState::initial().register(x) == 0,
        MachineState::initial().index == 0,
        MachineState::initial().pc == STARTING_ADDRESS,
        MachineState::initial().stack.len() == 0,
        MachineState::initial().delay == 0,
        MachineState::initial().sound == 0,
        forall|pixel: int| 0 <= pixel < DISPLAY_SIZE ==> !MachineState::initial().display[pixel],
        forall|key: int| 0 <= key < 16 ==> !MachineState::initial().keys[key],
        MachineState::initial().memory.subrange(0, FONT_DATA_SIZE as int) == FONT_DATA@,
        forall|address: int|
            FONT_DATA_SIZE <= address < 4096 ==> MachineState::initial().memory[address] == 0,
{
}

/// A cycle keeps the sizes of a machine: memory, registers, display and keypad keep
/// their length, and the call stack never holds more than sixteen return addresses.
pub proof fn lemma_step_keeps_valid(s: MachineState, random: u8)
    requires
        s.valid(),
    ensures
        step(s, random) matches Ok(next) ==> next.valid(),
{
}

/// Adding with carry leaves 1 in the flag register if the sum of the two registers does
/// not fit in a byte and 0 otherwise, and leaves the sum modulo 256 in the first
/// register, unless that register is the flag register itself.
pub proof fn lemma_add_with_carry(s: MachineState, x: u8, y: u8, random: u8)
    requires
        s.valid(),
        x < 16,
        y < 16,
    ensures
        execute(s, Instruction::AddCarry { x, y }, random) matches Ok(next) && {
            &&& next.register(0xF) == (if s.register(x) + s.register(y) >= 256 {
                1u8
            } else {
                0u8
            })
            &&& x != 0xF ==> next.register(x) == (s.register(x) + s.register(y)) % 256
        },
{
}

/// Subtracting with borrow leaves 1 in the flag register if the first register is at
/// least the second and 0 otherwise, and leaves the difference modulo 256 in the first
/// register, unless that register is the flag register itself.
pub proof fn lemma_subtract_with_borrow(s: MachineState, x: u8, y: u8, random: u8)
    requires
        s.valid(),
        x < 16,
        y < 16,
    ensures
        execute(s, Instruction::SubBorrow { x, y }, random) matches Ok(next) && {
            &&& next.register(0xF) == (if s.register(x) >= s.register(y) {
                1u8
            } else {
                0u8
            })
            &&& x != 0xF ==> next.register(x) == (s.register(x) - s.register(y)) % 256
        },
{
}

/// Shifting a register other than the flag register right leaves the bit that was
/// shifted out, the lowest, in the flag register, and half the value in the register.
pub proof fn lemma_shift_right(s: MachineState, x: u8, random: u8)
    requires
        s.valid(),
        x < 0xF,
    ensures
        execute(s, Instruction::ShiftRight { x }, random) matches Ok(next) && {
            &&& next.register(0xF) == s.register(x) % 2
            &&& next.register(x) == s.register(x) / 2
        },
{
}

/// Shifting a register other than the flag register left leaves the bit that was
/// shifted out, the highest, in the flag register, and twice the value modulo 256 in
/// the register.
pub proof fn lemma_shift_left(s: MachineState, x: u8, random: u8)
    requires
        s.valid(),
        x < 0xF,
    ensures
        execute(s, Instruction::ShiftLeft { x }, random) matches Ok(next) && {
            &&& next.register(0xF) == s.register(x) / 128
            &&& next.register(x) == (2 * s.register(x)) % 256
        },
{
}

/// Drawing the same sprite twice in a row at a position held in registers other than
/// the flag register brings the display back to what it was, and the second drawing
/// reports a collision exactly if the first one left a pixel lit under a set bit of
/// the sprite.
pub proof fn lemma_draw_twice(s: MachineState, x: u8, y: u8, rows: u8, random: u8)
    requires
        s.valid(),
        x < 0xF,
        y < 0xF,
        rows < 16,
        sprite_of(s, x, y, rows).in_memory(),
    ensures
        execute(s, Instruction::Draw { x, y, rows }, random) matches Ok(once) && execute(
            once,
            Instruction::Draw { x, y, rows },
            random,
        ) matches Ok(twice) && {
            &&& twice.display == s.display
            &&& twice.register(0xF) == 1 <==> exists|pixel: int|
                0 <= pixel < DISPLAY_SIZE && once.display[pixel] && #[trigger] sprite_of(
                    s,
                    x,
                    y,
                    rows,
                ).covers(s.memory, pixel)
        },
{
    let sprite = sprite_of(s, x, y, rows);
    let once = execute(s, Instruction::Draw { x, y, rows }, random)->Ok_0;
    assert(sprite_of(once, x, y, rows) == sprite);
    let twice = execute(once, Instruction::Draw { x, y, rows }, random)->Ok_0;
    assert(twice.display =~= s.display);
}

/// Storing a register in decimal leaves its hundreds, tens and ones digit at the index
/// register and in the two bytes after it: each is below ten, and together they make up
/// the value of the register. Nothing else changes. The instruction fails with a memory
/// fault exactly if one of the three bytes lies outside memory.
pub proof fn lemma_store_decimal(s: MachineState, x: u8, random: u8)
    requires
        s.valid(),
        x < 16,
    ensures
        s.index + 2 < MEMORY_SIZE ==> (execute(s, Instruction::StoreDecimal { x }, random) matches Ok(
            next,
        ) && {
            let hundreds = next.memory[s.index as int];
            let tens = next.memory[s.index + 1];
            let ones = next.memory[s.index + 2];
            &&& hundreds < 10 && tens < 10 && ones < 10
            &&& 100 * hundreds + 10 * tens + ones == s.register(x)
            &&& (hundreds, tens, ones) == decimal_digits(s.register(x))
            &&& forall|address: int|
                0 <= address < MEMORY_SIZE && !(s.index <= address <= s.index + 2)
                    ==> next.memory[address] == s.memory[address]
            &&& next == (MachineState { memory: next.memory, ..s })
        }),
        s.index + 2 >= MEMORY_SIZE ==> execute(s, Instruction::StoreDecimal { x }, random) == Err::<
            MachineState,
            Chip8Error,
        >(Chip8Error::MemoryFault),
{
}

/// While no key is held down, a cycle that runs the instruction that waits for a key
/// leaves the machine as it was, program counter included, so that the next cycle runs
/// the same instruction again.
pub proof fn lemma_wait_without_key(s: MachineState, x: u8, random: u8)
    requires
        s.valid(),
        fetches(s, Instruction::WaitKey { x }),
        !any_pressed(s.keys),
    ensures
        step(s, random) == Ok::<MachineState, Chip8Error>(s),
{
    assert forall|key: int| !is_lowest_pressed(s.keys, key) by {
        if is_lowest_pressed(s.keys, key) {
            assert(0 <= key < s.keys.len() && s.keys[key]);
        }
    }
    assert(lowest_pressed(s.keys) is None);
    let next = step(s, random)->Ok_0;
    assert(next =~= s);
}

/// Among the keys held down there is a lowest one.
pub proof fn lemma_lowest_pressed_exists(keys: Seq<bool>)
    requires
        any_pressed(keys),
    ensures
        lowest_pressed(keys) matches Some(key) && is_lowest_pressed(keys, key),
{
    let pressed = choose|key: int| 0 <= key < keys.len() && keys[key];
    let lowest = lowest_below(keys, pressed);
    lemma_lowest_pressed_is(keys, lowest);
}

/// The lowest key held down among those numbered up to `bound`, which is held down.
proof fn lowest_below(keys: Seq<bool>, bound: int) -> (lowest: int)
    requires
        0 <= bound < keys.len(),
        keys[bound],
    ensures
        is_lowest_pressed(keys, lowest),
    decreases bound,
{
    if exists|lower: int| 0 <= lower < bound && keys[lower] {
        let lower = choose|lower: int| 0 <= lower < bound && keys[lower];
        lowest_below(keys, lower)
    } else {
        bound
    }
}

/// Once a key is held down, a cycle that runs the instruction that waits for a key
/// moves the program counter past the instruction and leaves the number of the lowest
/// key held down in the register; nothing else changes.
pub proof fn lemma_wait_with_key(s: MachineState, x: u8, random: u8)
    requires
        s.valid(),
        fetches(s, Instruction::WaitKey { x }),
        any_pressed(s.keys),
    ensures
        step(s, random) matches Ok(next) && lowest_pressed(s.keys) matches Some(key) && {
            &&& is_lowest_pressed(s.keys, key)
            &&& next.pc == s.pc + 2
            &&& next.register(x) == key
            &&& next == s.advanced().with_register(x, key as u8)
        },
{
    lemma_lowest_pressed_exists(s.keys);
}

/// A call succeeds exactly if fewer than sixteen calls are pending; it then adds the
/// address of the instruction after it to the call stack and continues at its target.
/// With sixteen calls pending it fails with a stack overflow.
pub proof fn lemma_call(s: MachineState, address: u16, random: u8)
    requires
        s.valid(),
        fetches(s, Instruction::Call { address }),
    ensures
        s.stack.len() < STACK_DEPTH ==> (step(s, random) matches Ok(next) && {
            &&& next.pc == address
            &&& next.stack == s.stack.push((s.pc + 2) as u16)
        }),
        s.stack.len() >= STACK_DEPTH ==> step(s, random) == Err::<MachineState, Chip8Error>(
            Chip8Error::StackOverflow,
        ),
{
}

/// A return succeeds exactly if a call is pending; it then continues at the latest
/// return address and takes it off the call stack. With no call pending it fails with
/// a stack underflow.
pub proof fn lemma_return(s: MachineState, random: u8)
    requires
        s.valid(),
        fetches(s, Instruction::Return),
    ensures
        s.stack.len() > 0 ==> (step(s, random) matches Ok(next) && {
            &&& next.pc == s.stack.last()
            &&& next.stack == s.stack.drop_last()
        }),
        s.stack.len() == 0 ==> step(s, random) == Err::<MachineState, Chip8Error>(
            Chip8Error::StackUnderflow,
        ),
{
}

/// A call and the return that belongs to it: when the machine runs a return with the
/// call stack as the call left it, execution continues right after the call, with the
/// call stack as it was before the call.
pub proof fn lemma_call_then_return(
    s: MachineState,
    address: u16,
    later: MachineState,
    random: u8,
    later_random: u8,
)
    requires
        s.valid(),
        fetches(s, Instruction::Call { address }),
        s.stack.len() < STACK_DEPTH,
        later.valid(),
        fetches(later, Instruction::Return),
        step(s, random) matches Ok(called) && later.stack == called.stack,
    ensures
        step(later, later_random) matches Ok(returned) && {
            &&& returned.pc == s.pc + 2
            &&& returned.stack == s.stack
        },
{
    let called = step(s, random)->Ok_0;
    assert(called.stack == s.stack.push((s.pc + 2) as u16));
    assert(called.stack.drop_last() =~= s.stack);
}

} // verus!
