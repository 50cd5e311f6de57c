use chip8_core::instruction::Instruction;
use chip8_core::keypad::KEY_MAP;
use chip8_core::{map_key_to_button, Chip8, PixelRect};

#[test]
fn keyboard_block_maps_onto_the_keypad() {
    let layout: [(char, usize); 16] = [
        ('1', 0x1), ('2', 0x2), ('3', 0x3), ('4', 0xC),
        ('q', 0x4), ('w', 0x5), ('e', 0x6), ('r', 0xD),
        ('a', 0x7), ('s', 0x8), ('d', 0x9), ('f', 0xE),
        ('z', 0xA), ('x', 0x0), ('c', 0xB), ('v', 0xF),
    ];
    for (character, button) in layout {
        assert_eq!(map_key_to_button(character as i32), Some(button));
    }
    assert_eq!(map_key_to_button(49), Some(1));
    assert_eq!(map_key_to_button(120), Some(0));
    assert_eq!(map_key_to_button(118), Some(15));
}

#[test]
fn other_keys_map_to_no_button() {
    assert_eq!(map_key_to_button(0), None);
    assert_eq!(map_key_to_button(-1), None);
    assert_eq!(map_key_to_button(48), None);
    assert_eq!(map_key_to_button(53), None);
    assert_eq!(map_key_to_button('Q' as i32), None);
    assert_eq!(map_key_to_button(27), None);
    assert_eq!(map_key_to_button(i32::MAX), None);
    assert_eq!(map_key_to_button(i32::MIN), None);
}

#[test]
fn key_map_names_each_button_once() {
    let mut seen = [false; 16];
    for (keycode, button) in KEY_MAP {
        assert!(!seen[button]);
        seen[button] = true;
        assert_eq!(map_key_to_button(keycode), Some(button));
    }
    assert!(seen.iter().all(|button| *button));
}

#[test]
fn every_mapped_key_can_be_pressed() {
    let mut machine = Chip8::initialize();
    for (keycode, button) in KEY_MAP {
        let mapped = map_key_to_button(keycode).unwrap();
        assert_eq!(machine.set_key_state(mapped, true), Ok(()));
        assert!(machine.get_keys()[button]);
    }
}

#[test]
fn decode_reads_the_operands() {
    assert_eq!(Instruction::decode(0x0000), Some(Instruction::Nop));
    assert_eq!(Instruction::decode(0x00E0), Some(Instruction::ClearScreen));
    assert_eq!(Instruction::decode(0x00EE), Some(Instruction::Return));
    assert_eq!(Instruction::decode(0x1ABC), Some(Instruction::Jump { address: 0xABC }));
    assert_eq!(Instruction::decode(0x2FFF), Some(Instruction::Call { address: 0xFFF }));
    assert_eq!(Instruction::decode(0x3A12), Some(Instruction::SkipIfEqualByte { x: 0xA, byte: 0x12 }));
    assert_eq!(
        Instruction::decode(0x4B34),
        Some(Instruction::SkipIfNotEqualByte { x: 0xB, byte: 0x34 })
    );
    assert_eq!(Instruction::decode(0x5CD0), Some(Instruction::SkipIfEqual { x: 0xC, y: 0xD }));
    assert_eq!(Instruction::decode(0x6E56), Some(Instruction::LoadByte { x: 0xE, byte: 0x56 }));
    assert_eq!(Instruction::decode(0x7F78), Some(Instruction::AddByte { x: 0xF, byte: 0x78 }));
    assert_eq!(Instruction::decode(0x8120), Some(Instruction::Copy { x: 1, y: 2 }));
    assert_eq!(Instruction::decode(0x8121), Some(Instruction::Or { x: 1, y: 2 }));
    assert_eq!(Instruction::decode(0x8122), Some(Instruction::And { x: 1, y: 2 }));
    assert_eq!(Instruction::decode(0x8123), Some(Instruction::Xor { x: 1, y: 2 }));
    assert_eq!(Instruction::decode(0x8124), Some(Instruction::AddCarry { x: 1, y: 2 }));
    assert_eq!(Instruction::decode(0x8125), Some(Instruction::SubBorrow { x: 1, y: 2 }));
    assert_eq!(Instruction::decode(0x8126), Some(Instruction::ShiftRight { x: 1 }));
    assert_eq!(Instruction::decode(0x8127), Some(Instruction::SubReverse { x: 1, y: 2 }));
    assert_eq!(Instruction::decode(0x812E), Some(Instruction::ShiftLeft { x: 1 }));
    assert_eq!(Instruction::decode(0x9340), Some(Instruction::SkipIfNotEqual { x: 3, y: 4 }));
    assert_eq!(Instruction::decode(0xA123), Some(Instruction::LoadIndex { address: 0x123 }));
    assert_eq!(Instruction::decode(0xB456), Some(Instruction::JumpOffset { address: 0x456 }));
    assert_eq!(Instruction::decode(0xC7F0), Some(Instruction::Random { x: 7, byte: 0xF0 }));
    assert_eq!(Instruction::decode(0xD12F), Some(Instruction::Draw { x: 1, y: 2, rows: 0xF }));
    assert_eq!(Instruction::decode(0xE59E), Some(Instruction::SkipIfKey { x: 5 }));
    assert_eq!(Instruction::decode(0xE5A1), Some(Instruction::SkipIfNotKey { x: 5 }));
    assert_eq!(Instruction::decode(0xF607), Some(Instruction::ReadDelay { x: 6 }));
    assert_eq!(Instruction::decode(0xF60A), Some(Instruction::WaitKey { x: 6 }));
    assert_eq!(Instruction::decode(0xF615), Some(Instruction::SetDelay { x: 6 }));
    assert_eq!(Instruction::decode(0xF618), Some(Instruction::SetSound { x: 6 }));
    assert_eq!(Instruction::decode(0xF61E), Some(Instruction::AddIndex { x: 6 }));
    assert_eq!(Instruction::decode(0xF629), Some(Instruction::FontAddress { x: 6 }));
    assert_eq!(Instruction::decode(0xF633), Some(Instruction::StoreDecimal { x: 6 }));
    assert_eq!(Instruction::decode(0xF655), Some(Instruction::StoreRegisters { x: 6 }));
    assert_eq!(Instruction::decode(0xF665), Some(Instruction::LoadRegisters { x: 6 }));
}

#[test]
fn decode_rejects_words_that_encode_nothing() {
    for opcode in [0x0001u16, 0x00E1, 0x00EF, 0x0100, 0x0FFF, 0x5001, 0x500F, 0x8008, 0x800D,
        0x800F, 0x9001, 0xE000, 0xE09F, 0xE0A0, 0xE19D, 0xF000, 0xF008, 0xF00B, 0xF016, 0xF01F,
        0xF034, 0xF056, 0xF064, 0xF066, 0xF0FF]
    {
        assert_eq!(Instruction::decode(opcode), None);
    }
}

#[test]
fn decode_accepts_every_word_of_the_open_groups() {
    let mut decoded = 0u32;
    for opcode in 0..=0xFFFFu16 {
        let instruction = Instruction::decode(opcode);
        let group = opcode >> 12;
        if [1, 2, 3, 4, 6, 7, 0xA, 0xB, 0xC, 0xD].contains(&group) {
            assert!(instruction.is_some());
        }
        if instruction.is_some() {
            decoded += 1;
        }
    }
    // Ten open groups, three words of group 0, one word in sixteen of groups 5 and 9,
    // nine in sixteen of group 8, two in 256 of group E and nine in 256 of group F.
    assert_eq!(decoded, 10 * 4096 + 3 + 2 * 256 + 9 * 256 + 2 * 16 + 9 * 16);
}

#[test]
fn lit_pixel_rects_of_a_dark_display_is_empty() {
    let machine = Chip8::initialize();
    assert!(machine.lit_pixel_rects(15).is_empty());
}

#[test]
fn lit_pixel_rects_gives_one_square_for_each_lit_pixel() {
    // Rows 0xC0, 0x01 at (62, 31): pixels (62, 31), (63, 31) and (5, 0).
    let mut machine = Chip8::initialize();
    assert_eq!(
        machine.load_program(&[0x60, 62, 0x61, 31, 0xA2, 0x0A, 0xD0, 0x12, 0x00, 0x00, 0xC0, 0x01]),
        Ok(())
    );
    for _ in 0..4 {
        assert_eq!(machine.cycle_with(0), Ok(()));
    }
    assert_eq!(
        machine.lit_pixel_rects(15),
        vec![
            PixelRect { x: 75, y: 0, width: 15, height: 15 },
            PixelRect { x: 930, y: 465, width: 15, height: 15 },
            PixelRect { x: 945, y: 465, width: 15, height: 15 },
        ]
    );
    assert_eq!(
        machine.lit_pixel_rects(1),
        vec![
            PixelRect { x: 5, y: 0, width: 1, height: 1 },
            PixelRect { x: 62, y: 31, width: 1, height: 1 },
            PixelRect { x: 63, y: 31, width: 1, height: 1 },
        ]
    );
    assert_eq!(
        machine.lit_pixel_rects(u16::MAX)[2],
        PixelRect { x: 63 * 65535, y: 31 * 65535, width: 65535, height: 65535 }
    );
    assert_eq!(machine.lit_pixel_rects(0)[1], PixelRect { x: 0, y: 0, width: 0, height: 0 });
}

#[test]
fn lit_pixel_rects_follows_the_display() {
    let mut machine = Chip8::initialize();
    assert_eq!(machine.load_program(&[0xD0, 0x05, 0x00, 0xE0]), Ok(()));
    assert_eq!(machine.cycle_with(0), Ok(()));
    let rects = machine.lit_pixel_rects(10);
    let lit = machine.get_framebuffer().iter().filter(|pixel| **pixel).count();
    assert_eq!(rects.len(), lit);
    assert_eq!(rects.len(), 14);
    assert_eq!(rects[0], PixelRect { x: 0, y: 0, width: 10, height: 10 });
    assert_eq!(rects[13], PixelRect { x: 30, y: 40, width: 10, height: 10 });
    assert_eq!(machine.cycle_with(0), Ok(()));
    assert!(machine.lit_pixel_rects(10).is_empty());
}
