use chip8::opcode::{decode, Opcode};

#[test]
fn decode_clear_screen() {
    assert_eq!(decode(0x00E0), Opcode::ClearScreen);
}

#[test]
fn decode_return() {
    assert_eq!(decode(0x00EE), Opcode::Return);
}

#[test]
fn decode_family_zero_goes_by_the_low_nibble_alone() {
    assert_eq!(decode(0x0000), Opcode::ClearScreen);
    assert_eq!(decode(0x0120), Opcode::ClearScreen);
    assert_eq!(decode(0x0FF0), Opcode::ClearScreen);
    assert_eq!(decode(0x0001), Opcode::Return);
    assert_eq!(decode(0x0123), Opcode::Return);
    assert_eq!(decode(0x0FFF), Opcode::Return);
}

#[test]
fn decode_jump() {
    assert_eq!(decode(0x1ABC), Opcode::Jump { address: 0xABC });
    assert_eq!(decode(0x1000), Opcode::Jump { address: 0 });
    assert_eq!(decode(0x1FFF), Opcode::Jump { address: 0xFFF });
}

#[test]
fn decode_call() {
    assert_eq!(decode(0x2300), Opcode::Call { address: 0x300 });
    assert_eq!(decode(0x2FFF), Opcode::Call { address: 0xFFF });
}

#[test]
fn decode_skips() {
    assert_eq!(decode(0x3A42), Opcode::SkipIfEqual { x: 0xA, value: 0x42 });
    assert_eq!(decode(0x4B07), Opcode::SkipIfNotEqual { x: 0xB, value: 0x07 });
    assert_eq!(decode(0x5120), Opcode::SkipIfRegistersEqual { x: 1, y: 2 });
    assert_eq!(decode(0x512F), Opcode::SkipIfRegistersEqual { x: 1, y: 2 });
    assert_eq!(decode(0x9CD0), Opcode::SkipIfRegistersNotEqual { x: 0xC, y: 0xD });
    assert_eq!(decode(0x9CD5), Opcode::SkipIfRegistersNotEqual { x: 0xC, y: 0xD });
}

#[test]
fn decode_immediates() {
    assert_eq!(decode(0x6F01), Opcode::LoadImmediate { x: 0xF, value: 1 });
    assert_eq!(decode(0x60FF), Opcode::LoadImmediate { x: 0, value: 0xFF });
    assert_eq!(decode(0x7305), Opcode::AddImmediate { x: 3, value: 5 });
}

#[test]
fn decode_register_arithmetic() {
    assert_eq!(decode(0x8120), Opcode::Copy { x: 1, y: 2 });
    assert_eq!(decode(0x8121), Opcode::Or { x: 1, y: 2 });
    assert_eq!(decode(0x8122), Opcode::And { x: 1, y: 2 });
    assert_eq!(decode(0x8123), Opcode::Xor { x: 1, y: 2 });
    assert_eq!(decode(0x8124), Opcode::AddWithCarry { x: 1, y: 2 });
    assert_eq!(decode(0x8125), Opcode::SubtractWithBorrow { x: 1, y: 2 });
    assert_eq!(decode(0x8126), Opcode::ShiftRight { x: 1, y: 2 });
    assert_eq!(decode(0x8127), Opcode::ReverseSubtract { x: 1, y: 2 });
    assert_eq!(decode(0x812E), Opcode::ShiftLeft { x: 1, y: 2 });
    assert_eq!(decode(0x8FE4), Opcode::AddWithCarry { x: 0xF, y: 0xE });
}

#[test]
fn decode_unknown_arithmetic_selector_is_unimplemented() {
    for low in [0x8u16, 0x9, 0xA, 0xB, 0xC, 0xD, 0xF] {
        let word = 0x8120 | low;
        assert_eq!(decode(word), Opcode::Unimplemented { word });
    }
}

#[test]
fn decode_index_jump_offset_random_draw() {
    assert_eq!(decode(0xA123), Opcode::LoadIndex { address: 0x123 });
    assert_eq!(decode(0xB204), Opcode::JumpWithOffset { address: 0x204 });
    assert_eq!(decode(0xC70F), Opcode::Random { x: 7, mask: 0x0F });
    assert_eq!(decode(0xD125), Opcode::Draw { x: 1, y: 2, height: 5 });
    assert_eq!(decode(0xDFE0), Opcode::Draw { x: 0xF, y: 0xE, height: 0 });
}

#[test]
fn decode_key_and_timer_families_are_unimplemented() {
    for word in [0xE19Eu16, 0xE1A1, 0xE000, 0xF107, 0xF10A, 0xF115, 0xF118, 0xF11E, 0xF129, 0xF133,
        0xF155, 0xF165, 0xFFFF]
    {
        assert_eq!(decode(word), Opcode::Unimplemented { word });
    }
}

#[test]
fn decode_takes_every_field_from_its_bit_positions() {
    for word in 0..=0xFFFFu16 {
        let x = ((word >> 8) & 0xF) as u8;
        let y = ((word >> 4) & 0xF) as u8;
        let n = (word & 0xF) as u8;
        let nn = (word & 0xFF) as u8;
        let nnn = word & 0xFFF;
        let expected = match word >> 12 {
            0x0 if n == 0 => Opcode::ClearScreen,
            0x0 => Opcode::Return,
            0x1 => Opcode::Jump { address: nnn },
            0x2 => Opcode::Call { address: nnn },
            0x3 => Opcode::SkipIfEqual { x, value: nn },
            0x4 => Opcode::SkipIfNotEqual { x, value: nn },
            0x5 => Opcode::SkipIfRegistersEqual { x, y },
            0x6 => Opcode::LoadImmediate { x, value: nn },
            0x7 => Opcode::AddImmediate { x, value: nn },
            0x8 => match n {
                0x0 => Opcode::Copy { x, y },
                0x1 => Opcode::Or { x, y },
                0x2 => Opcode::And { x, y },
                0x3 => Opcode::Xor { x, y },
                0x4 => Opcode::AddWithCarry { x, y },
                0x5 => Opcode::SubtractWithBorrow { x, y },
                0x6 => Opcode::ShiftRight { x, y },
                0x7 => Opcode::ReverseSubtract { x, y },
                0xE => Opcode::ShiftLeft { x, y },
                _ => Opcode::Unimplemented { word },
            },
            0x9 => Opcode::SkipIfRegistersNotEqual { x, y },
            0xA => Opcode::LoadIndex { address: nnn },
            0xB => Opcode::JumpWithOffset { address: nnn },
            0xC => Opcode::Random { x, mask: nn },
            0xD => Opcode::Draw { x, y, height: n },
            _ => Opcode::Unimplemented { word },
        };
        assert_eq!(decode(word), expected);
    }
}

#[test]
fn every_decoded_instruction_is_well_formed() {
    for word in 0..=0xFFFFu16 {
        assert!(decode(word).is_well_formed());
    }
}

#[test]
fn instructions_with_fields_too_wide_are_not_well_formed() {
    assert!(!Opcode::LoadImmediate { x: 16, value: 0 }.is_well_formed());
    assert!(!Opcode::Copy { x: 0, y: 16 }.is_well_formed());
    assert!(!Opcode::Copy { x: 200, y: 1 }.is_well_formed());
    assert!(!Opcode::Jump { address: 0x1000 }.is_well_formed());
    assert!(!Opcode::Draw { x: 1, y: 2, height: 16 }.is_well_formed());
    assert!(Opcode::Draw { x: 15, y: 15, height: 15 }.is_well_formed());
    assert!(Opcode::Jump { address: 0xFFF }.is_well_formed());
    assert!(Opcode::Unimplemented { word: 0xFFFF }.is_well_formed());
}
