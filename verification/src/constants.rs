//! Dimensions of the machine and the built-in hexadecimal font.

use vstd::prelude::*;

verus! {

/// Width of the display in pixels.
pub const DISPLAY_WIDTH: usize = 64;

/// Height of the display in pixels.
pub const DISPLAY_HEIGHT: usize = 32;

/// Number of pixels of the display, stored row by row.
pub const DISPLAY_SIZE: usize = DISPLAY_WIDTH * DISPLAY_HEIGHT;

/// Number of addressable bytes.
pub const MEMORY_SIZE: usize = 4096;

/// Number of general-purpose registers, `V0` to `VF`.
pub const REGISTER_COUNT: usize = 16;

/// The register that several instructions use to report carry, borrow or collision.
pub const FLAG_REGISTER: usize = 0xF;

/// Number of return addresses the call stack can hold.
pub const STACK_DEPTH: usize = 16;

/// Number of keys on the keypad.
pub const KEY_COUNT: usize = 16;

/// Address at which programs are loaded and at which execution starts.
pub const STARTING_ADDRESS: u16 = 0x200;

/// Largest program, in bytes, that fits between the starting address and the end of memory.
pub const MAX_PROGRAM_SIZE: usize = MEMORY_SIZE - 0x200;

/// Number of bytes of the font table: sixteen glyphs.
pub const FONT_DATA_SIZE: usize = 80;

/// Bitmaps of the hexadecimal digits `0` to `F`, five bytes each, kept at the bottom of memory.
pub const FONT_DATA: [u8; FONT_DATA_SIZE] = [
    0xF0, 0x90, 0x90, 0x90, 0xF0,
    0x20, 0x60, 0x20, 0x20, 0x70,
    0xF0, 0x10, 0xF0, 0x80, 0xF0,
    0xF0, 0x10, 0xF0, 0x10, 0xF0,
    0x90, 0x90, 0xF0, 0x10, 0x10,
    0xF0, 0x80, 0xF0, 0x10, 0xF0,
    0xF0, 0x80, 0xF0, 0x90, 0xF0,
    0xF0, 0x10, 0x20, 0x40, 0x40,
    0xF0, 0x90, 0xF0, 0x90, 0xF0,
    0xF0, 0x90, 0xF0, 0x10, 0xF0,
    0xF0, 0x90, 0xF0, 0x90, 0x90,
    0xE0, 0x90, 0xE0, 0x90, 0xE0,
    0xF0, 0x80, 0x80, 0x80, 0xF0,
    0xE0, 0x90, 0x90, 0x90, 0xE0,
    0xF0, 0x80, 0xF0, 0x80, 0xF0,
    0xF0, 0x80, 0xF0, 0x80, 0x80,
];

} // verus!
