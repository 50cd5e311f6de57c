//! Copying runs of bytes into memory and out of it.

use vstd::prelude::*;
use crate::constants::{MEMORY_SIZE, REGISTER_COUNT};

verus! {

/// The sequence `target` with `bytes` written over it from position `start` on.
pub open spec fn overwritten(target: Seq<u8>, start: int, bytes: Seq<u8>) -> Seq<u8> {
    Seq::new(
        target.len(),
        |position: int|
            if start <= position < start + bytes.len() {
                bytes[position - start]
            } else {
                target[position]
            },
    )
}

/// Copies the first `count` bytes of `source` into memory from the address `start` on.
pub(crate) fn write_block(
    memory: &mut [u8; MEMORY_SIZE],
    start: usize,
    source: &[u8],
    count: usize,
)
    requires
        count <= source@.len(),
        start + count <= MEMORY_SIZE,
    ensures
        final(memory)@ == overwritten(old(memory)@, start as int, source@.take(count as int)),
    no_unwind
{
    let mut offset: usize = 0;
    while offset < count
        invariant
            offset <= count <= source@.len(),
            start + count <= MEMORY_SIZE,
            memory@ == overwritten(old(memory)@, start as int, source@.take(offset as int)),
        decreases count - offset,
    {
        memory[start + offset] = source[offset];
        offset += 1;
    }
}

/// Copies `count` bytes of memory from the address `start` on into the registers,
/// beginning with the first register.
pub(crate) fn read_block(
    registers: &mut [u8; REGISTER_COUNT],
    memory: &[u8; MEMORY_SIZE],
    start: usize,
    count: usize,
)
    requires
        count <= REGISTER_COUNT,
        start + count <= MEMORY_SIZE,
    ensures
        final(registers)@ == overwritten(
            old(registers)@,
            0,
            memory@.subrange(start as int, start + count),
        ),
    no_unwind
{
    let mut offset: usize = 0;
    while offset < count
        invariant
            offset <= count <= REGISTER_COUNT,
            start + count <= MEMORY_SIZE,
            registers@ == overwritten(
                old(registers)@,
                0,
                memory@.subrange(start as int, start + offset),
            ),
        decreases count - offset,
    {
        registers[offset] = memory[start + offset];
        offset += 1;
    }
}

} // verus!
