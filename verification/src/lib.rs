//! A CHIP-8 virtual machine: memory, registers, call stack, display, keypad and timers,
//! and the fetch-decode-execute cycle that runs a program on them.
//!
//! The behaviour of every operation is stated over [`MachineState`], the mathematical
//! model of a machine, and proved for the executable [`Chip8`].

pub mod constants;
pub mod display;
pub mod error;
pub mod instruction;
pub mod keypad;
pub mod laws;
pub mod machine;
pub mod memory;
mod random;
pub mod semantics;
pub mod state;

pub use constants::{
    DISPLAY_HEIGHT, DISPLAY_SIZE, DISPLAY_WIDTH, FLAG_REGISTER, FONT_DATA, FONT_DATA_SIZE,
    KEY_COUNT, MAX_PROGRAM_SIZE, MEMORY_SIZE, REGISTER_COUNT, STACK_DEPTH,
    STARTING_ADDRESS,
};
pub use display::PixelRect;
pub use error::Chip8Error;
pub use instruction::Instruction;
pub use keypad::map_key_to_button;
pub use machine::{initialize_chip8, Chip8};
pub use state::MachineState;
