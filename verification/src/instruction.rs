//! Instruction words and the instructions they encode.

use vstd::prelude::*;

verus! {

/// One instruction with its operands.
///
/// `x` and `y` name registers, `byte` is an immediate value and `address` a 12-bit
/// memory address, each taken from the instruction word.
#[derive(Clone, Copy, Debug, PartialEq, Eq, Structural)]
pub enum Instruction {
    /// `0000`: do nothing.
    Nop,
    /// `00E0`: turn every pixel off.
    ClearScreen,
    /// `00EE`: return from a subroutine.
    Return,
    /// `1nnn`: continue at `address`.
    Jump { address: u16 },
    /// `2nnn`: call the subroutine at `address`.
    Call { address: u16 },
    /// `3xnn`: skip the next instruction if `Vx == byte`.
    SkipIfEqualByte { x: u8, byte: u8 },
    /// `4xnn`: skip the next instruction if `Vx != byte`.
    SkipIfNotEqualByte { x: u8, byte: u8 },
    /// `5xy0`: skip the next instruction if `Vx == Vy`.
    SkipIfEqual { x: u8, y: u8 },
    /// `6xnn`: `Vx = byte`.
    LoadByte { x: u8, byte: u8 },
    /// `7xnn`: `Vx = Vx + byte`, wrapping, flag untouched.
    AddByte { x: u8, byte: u8 },
    /// `8xy0`: `Vx = Vy`.
    Copy { x: u8, y: u8 },
    /// `8xy1`: `Vx = Vx | Vy`.
    Or { x: u8, y: u8 },
    /// `8xy2`: `Vx = Vx & Vy`.
    And { x: u8, y: u8 },
    /// `8xy3`: `Vx = Vx ^ Vy`.
    Xor { x: u8, y: u8 },
    /// `8xy4`: `Vx = Vx + Vy`, wrapping, flag set on carry.
    AddCarry { x: u8, y: u8 },
    /// `8xy5`: `Vx = Vx - Vy`, wrapping, flag set unless a borrow occurred.
    SubBorrow { x: u8, y: u8 },
    /// `8xy6`: flag set to the lowest bit of `Vx`, then `Vx` shifted right by one.
    ShiftRight { x: u8 },
    /// `8xy7`: `Vx = Vy - Vx`, wrapping, flag set unless a borrow occurred.
    SubReverse { x: u8, y: u8 },
    /// `8xyE`: flag set to the highest bit of `Vx`, then `Vx` shifted left by one.
    ShiftLeft { x: u8 },
    /// `9xy0`: skip the next instruction if `Vx != Vy`.
    SkipIfNotEqual { x: u8, y: u8 },
    /// `Annn`: index register set to `address`.
    LoadIndex { address: u16 },
    /// `Bnnn`: continue at `address + V0`.
    JumpOffset { address: u16 },
    /// `Cxnn`: `Vx` set to a random byte masked with `byte`.
    Random { x: u8, byte: u8 },
    /// `Dxyn`: draw the sprite of `rows` rows found at the index register at `(Vx, Vy)`.
    Draw { x: u8, y: u8, rows: u8 },
    /// `Ex9E`: skip the next instruction if the key numbered `Vx` is held down.
    SkipIfKey { x: u8 },
    /// `ExA1`: skip the next instruction if the key numbered `Vx` is not held down.
    SkipIfNotKey { x: u8 },
    /// `Fx07`: `Vx` set to the delay timer.
    ReadDelay { x: u8 },
    /// `Fx0A`: wait for a key and store its number in `Vx`.
    WaitKey { x: u8 },
    /// `Fx15`: delay timer set to `Vx`.
    SetDelay { x: u8 },
    /// `Fx18`: sound timer set to `Vx`.
    SetSound { x: u8 },
    /// `Fx1E`: index register increased by `Vx`, wrapping.
    AddIndex { x: u8 },
    /// `Fx29`: index register set to the glyph of the low nibble of `Vx`.
    FontAddress { x: u8 },
    /// `Fx33`: the three decimal digits of `Vx` stored at the index register.
    StoreDecimal { x: u8 },
    /// `Fx55`: `V0` to `Vx` stored at the index register.
    StoreRegisters { x: u8 },
    /// `Fx65`: `V0` to `Vx` loaded from the index register.
    LoadRegisters { x: u8 },
}

/// The four nibbles of an instruction word, the most significant first.
pub open spec fn nibbles(opcode: u16) -> (u8, u8, u8, u8) {
    (
        (opcode / 0x1000) as u8,
        (opcode / 0x100 % 0x10) as u8,
        (opcode / 0x10 % 0x10) as u8,
        (opcode % 0x10) as u8,
    )
}

/// The low byte of an instruction word.
pub open spec fn low_byte(opcode: u16) -> u8 {
    (opcode % 0x100) as u8
}

/// The low twelve bits of an instruction word.
pub open spec fn low_address(opcode: u16) -> u16 {
    (opcode % 0x1000) as u16
}

impl Instruction {
    /// Every operand is within what an instruction word can encode: a register or a row
    /// count is a nibble, an address has twelve bits.
    pub open spec fn well_formed(self) -> bool {
        match self {
            Instruction::Nop | Instruction::ClearScreen | Instruction::Return => true,
            Instruction::Jump { address }
            | Instruction::Call { address }
            | Instruction::LoadIndex { address }
            | Instruction::JumpOffset { address } => address < 0x1000,
            Instruction::SkipIfEqualByte { x, .. }
            | Instruction::SkipIfNotEqualByte { x, .. }
            | Instruction::LoadByte { x, .. }
            | Instruction::AddByte { x, .. }
            | Instruction::Random { x, .. }
            | Instruction::ShiftRight { x }
            | Instruction::ShiftLeft { x }
            | Instruction::SkipIfKey { x }
            | Instruction::SkipIfNotKey { x }
            | Instruction::ReadDelay { x }
            | Instruction::WaitKey { x }
            | Instruction::SetDelay { x }
            | Instruction::SetSound { x }
            | Instruction::AddIndex { x }
            | Instruction::FontAddress { x }
            | Instruction::StoreDecimal { x }
            | Instruction::StoreRegisters { x }
            | Instruction::LoadRegisters { x } => x < 16,
            Instruction::SkipIfEqual { x, y }
            | Instruction::Copy { x, y }
            | Instruction::Or { x, y }
            | Instruction::And { x, y }
            | Instruction::Xor { x, y }
            | Instruction::AddCarry { x, y }
            | Instruction::SubBorrow { x, y }
            | Instruction::SubReverse { x, y }
            | Instruction::SkipIfNotEqual { x, y } => x < 16 && y < 16,
            Instruction::Draw { x, y, rows } => x < 16 && y < 16 && rows < 16,
        }
    }

    /// The instruction that `opcode` encodes, if it encodes one.
    ///
    /// The first nibble selects the group. Within the groups `0`, `5`, `8`, `9`, `E` and
    /// `F` the other nibbles select the instruction, and a word that fits none of them
    /// encodes nothing.
    pub open spec fn decode_spec(opcode: u16) -> Option<Instruction> {
        let (op, x, y, n) = nibbles(opcode);
        let byte = low_byte(opcode);
        let address = low_address(opcode);
        if op == 0x0 {
            if opcode == 0x0000 {
                Some(Instruction::Nop)
            } else if opcode == 0x00E0 {
                Some(Instruction::ClearScreen)
            } else if opcode == 0x00EE {
                Some(Instruction::Return)
            } else {
                None
            }
        } else if op == 0x1 {
            Some(Instruction::Jump { address })
        } else if op == 0x2 {
            Some(Instruction::Call { address })
        } else if op == 0x3 {
            Some(Instruction::SkipIfEqualByte { x, byte })
        } else if op == 0x4 {
            Some(Instruction::SkipIfNotEqualByte { x, byte })
        } else if op == 0x5 {
            if n == 0x0 {
                Some(Instruction::SkipIfEqual { x, y })
            } else {
                None
            }
        } else if op == 0x6 {
            Some(Instruction::LoadByte { x, byte })
        } else if op == 0x7 {
            Some(Instruction::AddByte { x, byte })
        } else if op == 0x8 {
            if n == 0x0 {
                Some(Instruction::Copy { x, y })
            } else if n == 0x1 {
                Some(Instruction::Or { x, y })
            } else if n == 0x2 {
                Some(Instruction::And { x, y })
            } else if n == 0x3 {
                Some(Instruction::Xor { x, y })
            } else if n == 0x4 {
                Some(Instruction::AddCarry { x, y })
            } else if n == 0x5 {
                Some(Instruction::SubBorrow { x, y })
            } else if n == 0x6 {
                Some(Instruction::ShiftRight { x })
            } else if n == 0x7 {
                Some(Instruction::SubReverse { x, y })
            } else if n == 0xE {
                Some(Instruction::ShiftLeft { x })
            } else {
                None
            }
        } else if op == 0x9 {
            if n == 0x0 {
                Some(Instruction::SkipIfNotEqual { x, y })
            } else {
                None
            }
        } else if op == 0xA {
            Some(Instruction::LoadIndex { address })
        } else if op == 0xB {
            Some(Instruction::JumpOffset { address })
        } else if op == 0xC {
            Some(Instruction::Random { x, byte })
        } else if op == 0xD {
            Some(Instruction::Draw { x, y, rows: n })
        } else if op == 0xE {
            if byte == 0x9E {
                Some(Instruction::SkipIfKey { x })
            } else if byte == 0xA1 {
                Some(Instruction::SkipIfNotKey { x })
            } else {
                None
            }
        } else {
            if byte == 0x07 {
                Some(Instruction::ReadDelay { x })
            } else if byte == 0x0A {
                Some(Instruction::WaitKey { x })
            } else if byte == 0x15 {
                Some(Instruction::SetDelay { x })
            } else if byte == 0x18 {
                Some(Instruction::SetSound { x })
            } else if byte == 0x1E {
                Some(Instruction::AddIndex { x })
            } else if byte == 0x29 {
                Some(Instruction::FontAddress { x })
            } else if byte == 0x33 {
                Some(Instruction::StoreDecimal { x })
            } else if byte == 0x55 {
                Some(Instruction::StoreRegisters { x })
            } else if byte == 0x65 {
                Some(Instruction::LoadRegisters { x })
            } else {
                None
            }
        }
    }

    /// Decodes an instruction word.
    pub fn decode(opcode: u16) -> (decoded: Option<Instruction>)
        ensures
            decoded == Instruction::decode_spec(opcode),
            decoded matches Some(instruction) ==> instruction.well_formed(),
    {
        proof {
            lemma_fields(opcode);
        }
        let op = ((opcode & 0xF000) >> 12) as u8;
        let x = ((opcode & 0x0F00) >> 8) as u8;
        let y = ((opcode & 0x00F0) >> 4) as u8;
        let n = (opcode & 0x000F) as u8;
        let byte = (opcode & 0x00FF) as u8;
        let address = opcode & 0x0FFF;
        match (op, x, y, n) {
            (0x0, 0x0, 0x0, 0x0) => Some(Instruction::Nop),
            (0x0, 0x0, 0xE, 0x0) => Some(Instruction::ClearScreen),
            (0x0, 0x0, 0xE, 0xE) => Some(Instruction::Return),
            (0x1, _, _, _) => Some(Instruction::Jump { address }),
            (0x2, _, _, _) => Some(Instruction::Call { address }),
            (0x3, _, _, _) => Some(Instruction::SkipIfEqualByte { x, byte }),
            (0x4, _, _, _) => Some(Instruction::SkipIfNotEqualByte { x, byte }),
            (0x5, _, _, 0x0) => Some(Instruction::SkipIfEqual { x, y }),
            (0x6, _, _, _) => Some(Instruction::LoadByte { x, byte }),
            (0x7, _, _, _) => Some(Instruction::AddByte { x, byte }),
            (0x8, _, _, 0x0) => Some(Instruction::Copy { x, y }),
            (0x8, _, _, 0x1) => Some(Instruction::Or { x, y }),
            (0x8, _, _, 0x2) => Some(Instruction::And { x, y }),
            (0x8, _, _, 0x3) => Some(Instruction::Xor { x, y }),
            (0x8, _, _, 0x4) => Some(Instruction::AddCarry { x, y }),
            (0x8, _, _, 0x5) => Some(Instruction::SubBorrow { x, y }),
            (0x8, _, _, 0x6) => Some(Instruction::ShiftRight { x }),
            (0x8, _, _, 0x7) => Some(Instruction::SubReverse { x, y }),
            (0x8, _, _, 0xE) => Some(Instruction::ShiftLeft { x }),
            (0x9, _, _, 0x0) => Some(Instruction::SkipIfNotEqual { x, y }),
            (0xA, _, _, _) => Some(Instruction::LoadIndex { address }),
            (0xB, _, _, _) => Some(Instruction::JumpOffset { address }),
            (0xC, _, _, _) => Some(Instruction::Random { x, byte }),
            (0xD, _, _, _) => Some(Instruction::Draw { x, y, rows: n }),
            (0xE, _, 0x9, 0xE) => Some(Instruction::SkipIfKey { x }),
            (0xE, _, 0xA, 0x1) => Some(Instruction::SkipIfNotKey { x }),
            (0xF, _, 0x0, 0x7) => Some(Instruction::ReadDelay { x }),
            (0xF, _, 0x0, 0xA) => Some(Instruction::WaitKey { x }),
            (0xF, _, 0x1, 0x5) => Some(Instruction::SetDelay { x }),
            (0xF, _, 0x1, 0x8) => Some(Instruction::SetSound { x }),
            (0xF, _, 0x1, 0xE) => Some(Instruction::AddIndex { x }),
            (0xF, _, 0x2, 0x9) => Some(Instruction::FontAddress { x }),
            (0xF, _, 0x3, 0x3) => Some(Instruction::StoreDecimal { x }),
            (0xF, _, 0x5, 0x5) => Some(Instruction::StoreRegisters { x }),
            (0xF, _, 0x6, 0x5) => Some(Instruction::LoadRegisters { x }),
            _ => None,
        }
    }
}

/// Masking and shifting an instruction word yields its nibbles, low byte and low
/// twelve bits.
proof fn lemma_fields(opcode: u16)
    by (bit_vector)
    ensures
        (opcode & 0xF000) >> 12 == opcode / 0x1000,
        (opcode & 0x0F00) >> 8 == opcode / 0x100 % 0x10,
        (opcode & 0x00F0) >> 4 == opcode / 0x10 % 0x10,
        opcode & 0x000F == opcode % 0x10,
        opcode & 0x00FF == opcode % 0x100,
        opcode & 0x0FFF == opcode % 0x1000,
{
}

} // verus!
