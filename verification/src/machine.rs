//! The executable machine.

use vstd::prelude::*;
use crate::constants::{
    DISPLAY_HEIGHT, DISPLAY_SIZE, DISPLAY_WIDTH, FLAG_REGISTER, FONT_DATA, FONT_DATA_SIZE,
    KEY_COUNT, MAX_PROGRAM_SIZE, MEMORY_SIZE, REGISTER_COUNT, STACK_DEPTH,
    STARTING_ADDRESS,
};
use crate::display::{draw_sprite, lit_pixel_rects, lit_rects, PixelRect, Sprite};
use crate::error::Chip8Error;
use crate::instruction::Instruction;
use crate::keypad::lowest_pressed_key;
use crate::memory::{read_block, write_block};
use crate::random::random_byte;
use crate::semantics::{
    carried_out, execute, execute_word, frame_carried_out, lemma_failure_ignores_random, run, step,
};
use crate::state::MachineState;

verus! {

/// A CHIP-8 machine. Its state, as programs and collaborators can observe it, is its view.
pub struct Chip8 {
    program_counter: u16,
    memory: [u8; MEMORY_SIZE],
    framebuffer: [bool; DISPLAY_SIZE],
    general_registers: [u8; REGISTER_COUNT],
    index_register: u16,
    stack_pointer: u16,
    call_stack: [u16; STACK_DEPTH],
    input_keys: [bool; KEY_COUNT],
    delay_timer: u8,
    sound_timer: u8,
}

impl View for Chip8 {
    type V = MachineState;

    closed spec fn view(&self) -> MachineState {
        MachineState {
            memory: self.memory@,
            registers: self.general_registers@,
            index: self.index_register,
            pc: self.program_counter,
            stack: self.call_stack@.take(self.stack_pointer as int),
            display: self.framebuffer@,
            keys: self.input_keys@,
            delay: self.delay_timer,
            sound: self.sound_timer,
        }
    }
}

/// Shifting and masking a byte, as arithmetic.
proof fn lemma_byte_bits(value: u8)
    by (bit_vector)
    ensures
        (value & 0x1 == 0x1) == (value % 2 == 1),
        (value & 0x80 == 0x80) == (value >= 0x80),
        value >> 1 == value / 2,
        value << 1 == ((value * 2) % 0x100) as u8,
        value & 0xF == value % 0x10,
{
}

/// Joining two bytes into a word, as arithmetic.
proof fn lemma_word(high: u8, low: u8)
    by (bit_vector)
    ensures
        ((high as u16) << 8) | (low as u16) == (high * 0x100 + low) as u16,
{
}

impl Chip8 {
    /// The stack pointer never leaves the call stack.
    #[verifier::type_invariant]
    spec fn stack_pointer_in_bounds(&self) -> bool {
        self.stack_pointer <= STACK_DEPTH
    }

    /// Creates a machine in its initial state.
    pub fn initialize() -> (machine: Self)
        ensures
            machine@ == MachineState::initial(),
    {
        let mut machine = Self {
            program_counter: STARTING_ADDRESS,
            memory: [0; MEMORY_SIZE],
            framebuffer: [false; DISPLAY_SIZE],
            general_registers: [0; REGISTER_COUNT],
            index_register: 0,
            stack_pointer: 0,
            call_stack: [0; STACK_DEPTH],
            input_keys: [false; KEY_COUNT],
            delay_timer: 0,
            sound_timer: 0,
        };
        write_block(&mut machine.memory, 0, &FONT_DATA, FONT_DATA_SIZE);
        assert(FONT_DATA@.take(FONT_DATA_SIZE as int) == FONT_DATA@);
        machine
    }

    /// Puts the machine back into its initial state.
    pub fn reset(&mut self)
        ensures
            final(self)@ == MachineState::initial(),
    {
        proof {
            use_type_invariant(&*self);
        }
        self.program_counter = STARTING_ADDRESS;
        self.memory = [0; MEMORY_SIZE];
        self.framebuffer = [false; DISPLAY_SIZE];
        self.general_registers = [0; REGISTER_COUNT];
        self.index_register = 0;
        self.stack_pointer = 0;
        self.call_stack = [0; STACK_DEPTH];
        self.input_keys = [false; KEY_COUNT];
        self.delay_timer = 0;
        self.sound_timer = 0;
        write_block(&mut self.memory, 0, &FONT_DATA, FONT_DATA_SIZE);
        assert(FONT_DATA@.take(FONT_DATA_SIZE as int) == FONT_DATA@);
    }

    /// Pushes a return address onto the call stack, unless the stack is full.
    fn push_to_stack(&mut self, value: u16) -> (result: Result<(), Chip8Error>)
        ensures
            carried_out(
                old(self)@,
                if old(self)@.stack.len() < STACK_DEPTH {
                    Ok(MachineState { stack: old(self)@.stack.push(value), ..old(self)@ })
                } else {
                    Err(Chip8Error::StackOverflow)
                },
                final(self)@,
                result,
            ),
    {
        proof {
            use_type_invariant(&*self);
        }
        if self.stack_pointer as usize >= STACK_DEPTH {
            return Err(Chip8Error::StackOverflow);
        }
        self.call_stack[self.stack_pointer as usize] = value;
        self.stack_pointer += 1;
        assert(self@.stack == old(self)@.stack.push(value));
        Ok(())
    }

    /// Pops the latest return address off the call stack, unless the stack is empty.
    fn pop_from_stack(&mut self) -> (result: Result<u16, Chip8Error>)
        ensures
            match result {
                Ok(value) => {
                    &&& old(self)@.stack.len() > 0
                    &&& value == old(self)@.stack.last()
                    &&& final(self)@ == (MachineState {
                        stack: old(self)@.stack.drop_last(),
                        ..old(self)@
                    })
                },
                Err(error) => {
                    &&& old(self)@.stack.len() == 0
                    &&& error == Chip8Error::StackUnderflow
                    &&& final(self)@ == old(self)@
                },
            },
    {
        proof {
            use_type_invariant(&*self);
        }
        if self.stack_pointer == 0 {
            return Err(Chip8Error::StackUnderflow);
        }
        self.stack_pointer -= 1;
        assert(self@.stack == old(self)@.stack.drop_last());
        Ok(self.call_stack[self.stack_pointer as usize])
    }

    /// Runs one cycle: fetches the instruction at the program counter and executes it.
    ///
    /// The cycle is the one that `step` describes for the random byte that was drawn,
    /// should the instruction draw one. A cycle that fails leaves the machine as it was.
    pub fn cycle(&mut self) -> (result: Result<(), Chip8Error>)
        ensures
            exists|random: u8|
                carried_out(old(self)@, #[trigger] step(old(self)@, random), final(self)@, result),
    {
        let start = self.program_counter;
        match self.fetch_opcode() {
            Err(error) => {
                assert(carried_out(old(self)@, step(old(self)@, 0), self@, Err(error)));
                Err(error)
            },
            Ok(opcode) => {
                let ghost fetched = self@;
                let result = self.execute_opcode(opcode);
                let ghost random = choose|random: u8|
                    carried_out(fetched, #[trigger] execute_word(fetched, opcode, random), self@, result);
                if result.is_err() {
                    proof {
                        use_type_invariant(&*self);
                    }
                    self.program_counter = start;
                }
                assert(carried_out(old(self)@, step(old(self)@, random), self@, result));
                result
            },
        }
    }

    /// Runs one cycle in which the instruction that draws a random byte, if it is the one
    /// to run, is handed `random`.
    ///
    /// A cycle that fails leaves the machine as it was.
    pub fn cycle_with(&mut self, random: u8) -> (result: Result<(), Chip8Error>)
        ensures
            carried_out(old(self)@, step(old(self)@, random), final(self)@, result),
    {
        let start = self.program_counter;
        match self.fetch_opcode() {
            Err(error) => Err(error),
            Ok(opcode) => {
                let result = self.execute_opcode_with(opcode, random);
                if result.is_err() {
                    proof {
                        use_type_invariant(&*self);
                    }
                    self.program_counter = start;
                }
                result
            },
        }
    }

    /// The display, row by row, `true` for each lit pixel.
    pub fn get_framebuffer(&self) -> (pixels: &[bool])
        ensures
            pixels@ == self@.display,
    {
        &self.framebuffer
    }

    /// Records that a key was pressed or released.
    pub fn set_key_state(&mut self, key_index: usize, is_pressed: bool) -> (result: Result<
        (),
        Chip8Error,
    >)
        ensures
            carried_out(
                old(self)@,
                if key_index < KEY_COUNT {
                    Ok(old(self)@.with_key(key_index as int, is_pressed))
                } else {
                    Err(Chip8Error::InvalidKeyIndex)
                },
                final(self)@,
                result,
            ),
    {
        proof {
            use_type_invariant(&*self);
        }
        if key_index >= KEY_COUNT {
            return Err(Chip8Error::InvalidKeyIndex);
        }
        self.input_keys[key_index] = is_pressed;
        Ok(())
    }

    /// Copies a program into memory from the starting address on, unless it is too large
    /// to fit. Nothing but that part of memory changes.
    pub fn load_program(&mut self, program_data: &[u8]) -> (result: Result<(), Chip8Error>)
        ensures
            carried_out(
                old(self)@,
                if program_data@.len() <= MAX_PROGRAM_SIZE {
                    Ok(old(self)@.with_program(program_data@))
                } else {
                    Err(Chip8Error::ProgramTooLarge)
                },
                final(self)@,
                result,
            ),
    {
        proof {
            use_type_invariant(&*self);
        }
        if program_data.len() > MAX_PROGRAM_SIZE {
            return Err(Chip8Error::ProgramTooLarge);
        }
        write_block(&mut self.memory, STARTING_ADDRESS as usize, program_data, program_data.len());
        assert(program_data@.take(program_data@.len() as int) == program_data@);
        Ok(())
    }

    /// Reads the instruction word at the program counter and moves the program counter
    /// past it, unless the word does not lie inside memory.
    fn fetch_opcode(&mut self) -> (result: Result<u16, Chip8Error>)
        ensures
            match result {
                Ok(opcode) => {
                    &&& crate::semantics::fetch(old(self)@) == Some(opcode)
                    &&& final(self)@ == old(self)@.advanced()
                },
                Err(error) => {
                    &&& crate::semantics::fetch(old(self)@) is None
                    &&& error == Chip8Error::MemoryFault
                    &&& final(self)@ == old(self)@
                },
            },
    {
        proof {
            use_type_invariant(&*self);
        }
        if self.program_counter as usize + 1 >= MEMORY_SIZE {
            return Err(Chip8Error::MemoryFault);
        }
        let high_byte = self.memory[self.program_counter as usize];
        let low_byte = self.memory[self.program_counter as usize + 1];
        self.program_counter += 2;
        proof {
            lemma_word(high_byte, low_byte);
        }
        Ok(((high_byte as u16) << 8) | (low_byte as u16))
    }

    /// Decodes and executes an instruction word, drawing a random byte if the
    /// instruction asks for one.
    fn execute_opcode(&mut self, opcode: u16) -> (result: Result<(), Chip8Error>)
        requires
            2 <= old(self)@.pc <= MEMORY_SIZE,
        ensures
            exists|random: u8|
                carried_out(
                    old(self)@,
                    #[trigger] execute_word(old(self)@, opcode, random),
                    final(self)@,
                    result,
                ),
    {
        let random = match Instruction::decode(opcode) {
            Some(Instruction::Random { .. }) => random_byte(),
            _ => 0,
        };
        let result = self.execute_opcode_with(opcode, random);
        assert(carried_out(old(self)@, execute_word(old(self)@, opcode, random), self@, result));
        result
    }

    /// Decodes and executes an instruction word, with `random` as the byte drawn.
    fn execute_opcode_with(&mut self, opcode: u16, random: u8) -> (result: Result<(), Chip8Error>)
        requires
            2 <= old(self)@.pc <= MEMORY_SIZE,
        ensures
            carried_out(
                old(self)@,
                execute_word(old(self)@, opcode, random),
                final(self)@,
                result,
            ),
    {
        match Instruction::decode(opcode) {
            Some(instruction) => self.execute_instruction(instruction, random),
            None => Err(Chip8Error::IllegalInstruction(opcode)),
        }
    }

    /// Executes one instruction, with `random` as the byte drawn.
    fn execute_instruction(&mut self, instruction: Instruction, random: u8) -> (result: Result<
        (),
        Chip8Error,
    >)
        requires
            instruction.well_formed(),
            2 <= old(self)@.pc <= MEMORY_SIZE,
        ensures
            carried_out(
                old(self)@,
                execute(old(self)@, instruction, random),
                final(self)@,
                result,
            ),
    {
        match instruction {
            Instruction::Nop => Ok(()),
            Instruction::ClearScreen => {
                self.clear_display();
                Ok(())
            },
            Instruction::Return => {
                match self.pop_from_stack() {
                    Ok(address) => {
                        self.jump(address);
                        Ok(())
                    },
                    Err(error) => Err(error),
                }
            },
            Instruction::Jump { address } => {
                self.jump(address);
                Ok(())
            },
            Instruction::Call { address } => {
                let return_address = self.program_counter;
                match self.push_to_stack(return_address) {
                    Ok(()) => {
                        self.jump(address);
                        Ok(())
                    },
                    Err(error) => Err(error),
                }
            },
            Instruction::SkipIfEqualByte { x, byte } => {
                self.skip_if(self.register(x) == byte);
                Ok(())
            },
            Instruction::SkipIfNotEqualByte { x, byte } => {
                self.skip_if(self.register(x) != byte);
                Ok(())
            },
            Instruction::SkipIfEqual { x, y } => {
                self.skip_if(self.register(x) == self.register(y));
                Ok(())
            },
            Instruction::LoadByte { x, byte } => {
                self.set_register(x, byte);
                Ok(())
            },
            Instruction::AddByte { x, byte } => {
                self.set_register(x, self.register(x).wrapping_add(byte));
                Ok(())
            },
            Instruction::Copy { x, y } => {
                self.set_register(x, self.register(y));
                Ok(())
            },
            Instruction::Or { x, y } => {
                self.set_register(x, self.register(x) | self.register(y));
                Ok(())
            },
            Instruction::And { x, y } => {
                self.set_register(x, self.register(x) & self.register(y));
                Ok(())
            },
            Instruction::Xor { x, y } => {
                self.set_register(x, self.register(x) ^ self.register(y));
                Ok(())
            },
            Instruction::AddCarry { x, y } => {
                let left = self.register(x);
                let right = self.register(y);
                self.set_register(x, left.wrapping_add(right));
                self.set_flag(left as u16 + right as u16 > 0xFF);
                Ok(())
            },
            Instruction::SubBorrow { x, y } => {
                let left = self.register(x);
                let right = self.register(y);
                self.set_register(x, left.wrapping_sub(right));
                self.set_flag(left >= right);
                Ok(())
            },
            Instruction::ShiftRight { x } => {
                let value = self.register(x);
                self.set_flag(value & 0x1 == 0x1);
                let flagged = self.register(x);
                self.set_register(x, flagged >> 1);
                proof {
                    lemma_byte_bits(value);
                    lemma_byte_bits(flagged);
                }
                Ok(())
            },
            Instruction::SubReverse { x, y } => {
                let left = self.register(y);
                let right = self.register(x);
                self.set_register(x, left.wrapping_sub(right));
                self.set_flag(left >= right);
                Ok(())
            },
            Instruction::ShiftLeft { x } => {
                let value = self.register(x);
                self.set_flag(value & 0x80 == 0x80);
                let flagged = self.register(x);
                self.set_register(x, flagged << 1);
                proof {
                    lemma_byte_bits(value);
                    lemma_byte_bits(flagged);
                }
                Ok(())
            },
            Instruction::SkipIfNotEqual { x, y } => {
                self.skip_if(self.register(x) != self.register(y));
                Ok(())
            },
            Instruction::LoadIndex { address } => {
                self.set_index(address);
                Ok(())
            },
            Instruction::JumpOffset { address } => {
                self.jump(self.register(0) as u16 + address);
                Ok(())
            },
            Instruction::Random { x, byte } => {
                self.set_register(x, random & byte);
                Ok(())
            },
            Instruction::Draw { x, y, rows } => {
                self.draw(x, y, rows)
            },
            Instruction::SkipIfKey { x } => {
                self.skip_if(self.is_key_down(self.register(x)));
                Ok(())
            },
            Instruction::SkipIfNotKey { x } => {
                self.skip_if(!self.is_key_down(self.register(x)));
                Ok(())
            },
            Instruction::ReadDelay { x } => {
                self.set_register(x, self.delay_timer);
                Ok(())
            },
            Instruction::WaitKey { x } => {
                match lowest_pressed_key(&self.input_keys) {
                    Some(key) => {
                        self.set_register(x, key);
                    },
                    None => {
                        self.jump(self.program_counter - 2);
                    },
                }
                Ok(())
            },
            Instruction::SetDelay { x } => {
                self.set_delay(self.register(x));
                Ok(())
            },
            Instruction::SetSound { x } => {
                self.set_sound(self.register(x));
                Ok(())
            },
            Instruction::AddIndex { x } => {
                self.set_index(self.index_register.wrapping_add(self.register(x) as u16));
                Ok(())
            },
            Instruction::FontAddress { x } => {
                let digit = self.register(x) & 0xF;
                proof {
                    lemma_byte_bits(self@.register(x));
                }
                self.set_index(5 * digit as u16);
                Ok(())
            },
            Instruction::StoreDecimal { x } => {
                self.store_decimal(x)
            },
            Instruction::StoreRegisters { x } => {
                self.store_registers(x)
            },
            Instruction::LoadRegisters { x } => {
                self.load_registers(x)
            },
        }
    }

    /// Reads register `x`.
    fn register(&self, x: u8) -> (value: u8)
        requires
            x < REGISTER_COUNT,
        ensures
            value == self@.register(x),
    {
        self.general_registers[x as usize]
    }

    /// Writes register `x`.
    fn set_register(&mut self, x: u8, value: u8)
        requires
            x < REGISTER_COUNT,
        ensures
            final(self)@ == old(self)@.with_register(x, value),
    {
        proof {
            use_type_invariant(&*self);
        }
        self.general_registers[x as usize] = value;
    }

    /// Writes 1 or 0 to the flag register.
    fn set_flag(&mut self, raised: bool)
        ensures
            final(self)@ == old(self)@.with_flag(raised),
    {
        proof {
            use_type_invariant(&*self);
        }
        self.general_registers[FLAG_REGISTER] = if raised { 1 } else { 0 };
    }

    /// Moves the program counter to `address`.
    fn jump(&mut self, address: u16)
        ensures
            final(self)@ == (MachineState { pc: address, ..old(self)@ }),
    {
        proof {
            use_type_invariant(&*self);
        }
        self.program_counter = address;
    }

    /// Skips the next instruction if `condition` holds.
    fn skip_if(&mut self, condition: bool)
        requires
            old(self)@.pc <= MEMORY_SIZE,
        ensures
            final(self)@ == old(self)@.skipping_if(condition),
    {
        proof {
            use_type_invariant(&*self);
        }
        if condition {
            self.program_counter += 2;
        }
    }

    /// Whether the key numbered `value` is held down.
    fn is_key_down(&self, value: u8) -> (down: bool)
        ensures
            down == self@.key_down(value),
    {
        (value as usize) < KEY_COUNT && self.input_keys[value as usize]
    }

    /// Moves the index register to `address`.
    fn set_index(&mut self, address: u16)
        ensures
            final(self)@ == (MachineState { index: address, ..old(self)@ }),
    {
        proof {
            use_type_invariant(&*self);
        }
        self.index_register = address;
    }

    /// Sets the delay timer.
    fn set_delay(&mut self, value: u8)
        ensures
            final(self)@ == (MachineState { delay: value, ..old(self)@ }),
    {
        proof {
            use_type_invariant(&*self);
        }
        self.delay_timer = value;
    }

    /// Sets the sound timer.
    fn set_sound(&mut self, value: u8)
        ensures
            final(self)@ == (MachineState { sound: value, ..old(self)@ }),
    {
        proof {
            use_type_invariant(&*self);
        }
        self.sound_timer = value;
    }

    /// Turns every pixel off.
    fn clear_display(&mut self)
        ensures
            final(self)@ == (MachineState {
                display: Seq::new(DISPLAY_SIZE as nat, |pixel: int| false),
                ..old(self)@
            }),
    {
        proof {
            use_type_invariant(&*self);
        }
        self.framebuffer = [false; DISPLAY_SIZE];
    }

    /// Draws the sprite of `rows` rows found at the index register at the position held
    /// in the registers `x` and `y`, and reports a collision in the flag register.
    fn draw(&mut self, x: u8, y: u8, rows: u8) -> (result: Result<(), Chip8Error>)
        requires
            x < REGISTER_COUNT,
            y < REGISTER_COUNT,
            rows < 16,
        ensures
            carried_out(
                old(self)@,
                execute(old(self)@, Instruction::Draw { x, y, rows }, 0),
                final(self)@,
                result,
            ),
    {
        proof {
            use_type_invariant(&*self);
        }
        let sprite = Sprite {
            address: self.index_register,
            rows,
            left: self.register(x) % DISPLAY_WIDTH as u8,
            top: self.register(y) % DISPLAY_HEIGHT as u8,
        };
        if rows > 0 && self.index_register as usize + rows as usize > MEMORY_SIZE {
            return Err(Chip8Error::MemoryFault);
        }
        let collision = draw_sprite(&mut self.framebuffer, &self.memory, sprite);
        self.set_flag(collision);
        Ok(())
    }

    /// Stores the three decimal digits of register `x` at the index register.
    fn store_decimal(&mut self, x: u8) -> (result: Result<(), Chip8Error>)
        requires
            x < REGISTER_COUNT,
        ensures
            carried_out(
                old(self)@,
                execute(old(self)@, Instruction::StoreDecimal { x }, 0),
                final(self)@,
                result,
            ),
    {
        proof {
            use_type_invariant(&*self);
        }
        let address = self.index_register as usize;
        if address + 2 >= MEMORY_SIZE {
            return Err(Chip8Error::MemoryFault);
        }
        let value = self.register(x);
        self.memory[address] = value / 100;
        self.memory[address + 1] = (value / 10) % 10;
        self.memory[address + 2] = value % 10;
        Ok(())
    }

    /// Stores the registers `V0` to `Vx` at the index register.
    fn store_registers(&mut self, x: u8) -> (result: Result<(), Chip8Error>)
        requires
            x < REGISTER_COUNT,
        ensures
            carried_out(
                old(self)@,
                execute(old(self)@, Instruction::StoreRegisters { x }, 0),
                final(self)@,
                result,
            ),
    {
        proof {
            use_type_invariant(&*self);
        }
        let address = self.index_register as usize;
        if address + x as usize >= MEMORY_SIZE {
            return Err(Chip8Error::MemoryFault);
        }
        write_block(&mut self.memory, address, &self.general_registers, x as usize + 1);
        Ok(())
    }

    /// Loads the registers `V0` to `Vx` from the index register.
    fn load_registers(&mut self, x: u8) -> (result: Result<(), Chip8Error>)
        requires
            x < REGISTER_COUNT,
        ensures
            carried_out(
                old(self)@,
                execute(old(self)@, Instruction::LoadRegisters { x }, 0),
                final(self)@,
                result,
            ),
    {
        proof {
            use_type_invariant(&*self);
        }
        let address = self.index_register as usize;
        if address + x as usize >= MEMORY_SIZE {
            return Err(Chip8Error::MemoryFault);
        }
        read_block(&mut self.general_registers, &self.memory, address, x as usize + 1);
        Ok(())
    }

    /// Advances the timers by one tick: each counts down by one and stays at zero.
    pub fn update_timers(&mut self)
        ensures
            final(self)@ == old(self)@.ticked(),
    {
        proof {
            use_type_invariant(&*self);
        }
        if self.delay_timer > 0 {
            self.delay_timer -= 1;
        }
        if self.sound_timer > 0 {
            self.sound_timer -= 1;
        }
    }

    /// Runs a frame: `cycles` cycles, then one tick of the timers.
    ///
    /// The frame ends at the first cycle that fails, without the tick, and reports that
    /// cycle's error; the cycles before it stand.
    pub fn run_frame(&mut self, cycles: usize) -> (result: Result<(), Chip8Error>)
        ensures
            exists|randoms: Seq<u8>|
                #[trigger] frame_carried_out(
                    old(self)@,
                    cycles as nat,
                    randoms,
                    final(self)@,
                    result,
                ),
    {
        let ghost mut randoms: Seq<u8> = Seq::empty();
        let mut done: usize = 0;
        while done < cycles
            invariant
                done <= cycles,
                randoms.len() == done,
                run(old(self)@, randoms) == Ok::<MachineState, Chip8Error>(self@),
            decreases cycles - done,
        {
            let ghost reached = self@;
            let outcome = self.cycle();
            let ghost random = choose|random: u8|
                carried_out(reached, #[trigger] step(reached, random), self@, outcome);
            if let Err(error) = outcome {
                proof {
                    assert forall|other: u8|
                        #[trigger] step(self@, other) == Err::<MachineState, Chip8Error>(
                            error,
                        ) by {
                        lemma_failure_ignores_random(reached, random, other);
                    }
                    assert(frame_carried_out(
                        old(self)@,
                        cycles as nat,
                        randoms,
                        self@,
                        Err(error),
                    ));
                }
                return Err(error);
            }
            proof {
                assert(randoms.push(random).drop_last() =~= randoms);
                randoms = randoms.push(random);
            }
            done += 1;
        }
        self.update_timers();
        assert(frame_carried_out(old(self)@, cycles as nat, randoms, self@, Ok(())));
        Ok(())
    }

    /// The general-purpose registers, `V0` first.
    pub fn get_registers(&self) -> (registers: &[u8])
        ensures
            registers@ == self@.registers,
    {
        &self.general_registers
    }

    /// The whole of memory.
    pub fn get_memory(&self) -> (memory: &[u8])
        ensures
            memory@ == self@.memory,
    {
        &self.memory
    }

    /// The keys, `true` for each key that is held down.
    pub fn get_keys(&self) -> (keys: &[bool])
        ensures
            keys@ == self@.keys,
    {
        &self.input_keys
    }

    /// The address of the next instruction.
    pub fn program_counter(&self) -> (address: u16)
        ensures
            address == self@.pc,
    {
        self.program_counter
    }

    /// The index register.
    pub fn index_register(&self) -> (address: u16)
        ensures
            address == self@.index,
    {
        self.index_register
    }

    /// The number of calls that are pending.
    pub fn stack_pointer(&self) -> (depth: u16)
        ensures
            depth == self@.stack.len(),
    {
        proof {
            use_type_invariant(self);
        }
        self.stack_pointer
    }

    /// The delay timer.
    pub fn delay_timer(&self) -> (value: u8)
        ensures
            value == self@.delay,
    {
        self.delay_timer
    }

    /// The sound timer.
    pub fn sound_timer(&self) -> (value: u8)
        ensures
            value == self@.sound,
    {
        self.sound_timer
    }

    /// Lists the squares to fill in order to show the display in a window in which every
    /// pixel is `scale` wide and high: one square for each lit pixel, row by row.
    pub fn lit_pixel_rects(&self, scale: u16) -> (rects: Vec<PixelRect>)
        ensures
            rects@ == lit_rects(self@.display, scale, DISPLAY_SIZE as int),
    {
        lit_pixel_rects(&self.framebuffer, scale)
    }

    /// Whether a sound is to be heard: the sound timer has not run out.
    pub fn is_sound_active(&self) -> (active: bool)
        ensures
            active == (self@.sound > 0),
    {
        self.sound_timer > 0
    }
}

/// Creates a machine with `rom_data` loaded as its program, unless the program is too
/// large to fit.
pub fn initialize_chip8(rom_data: &[u8]) -> (created: Result<Chip8, Chip8Error>)
    ensures
        match created {
            Ok(machine) => {
                &&& rom_data@.len() <= MAX_PROGRAM_SIZE
                &&& machine@ == MachineState::initial().with_program(rom_data@)
            },
            Err(error) => {
                &&& rom_data@.len() > MAX_PROGRAM_SIZE
                &&& error == Chip8Error::ProgramTooLarge
            },
        },
{
    let mut machine = Chip8::initialize();
    match machine.load_program(rom_data) {
        Ok(()) => Ok(machine),
        Err(error) => Err(error),
    }
}

} // verus!
