use chip_8::{Chip8Error, Instruction};

#[test]
fn decode_clear_and_return() {
    assert_eq!(Instruction::new(0x00E0), Ok(Instruction::Clear));
    assert_eq!(Instruction::new(0x00EE), Ok(Instruction::Return));
}

#[test]
fn decode_native_routine_is_not_compatible() {
    assert_eq!(Instruction::new(0x0123), Err(Chip8Error::ProgramNotCompatible));
    assert_eq!(Instruction::new(0x0000), Err(Chip8Error::ProgramNotCompatible));
    assert_eq!(Instruction::new(0x01E0), Err(Chip8Error::ProgramNotCompatible));
    assert_eq!(Instruction::new(0x0FEE), Err(Chip8Error::ProgramNotCompatible));
    assert_eq!(Instruction::new(0x0AE0), Err(Chip8Error::ProgramNotCompatible));
}

#[test]
fn decode_invalid_words_carry_the_word() {
    for w in [0xFFFFu16, 0x8008, 0x800F, 0xE000, 0xE19F, 0xF000, 0xF166] {
        assert_eq!(Instruction::new(w), Err(Chip8Error::InvalidInstruction { instruction: w }));
    }
}

#[test]
fn decode_extracts_fields() {
    assert_eq!(Instruction::new(0x1ABC), Ok(Instruction::Jump { nnn: 0xABC }));
    assert_eq!(Instruction::new(0x2206), Ok(Instruction::Call { nnn: 0x206 }));
    assert_eq!(Instruction::new(0x3A42), Ok(Instruction::SkipIfRegisterEquals { vx: 0xA, nn: 0x42 }));
    assert_eq!(Instruction::new(0x4B07), Ok(Instruction::SkipIfRegisterNotEquals { vx: 0xB, nn: 0x07 }));
    assert_eq!(Instruction::new(0x5120), Ok(Instruction::SkipIfRegisterVxEqualsVy { vx: 1, vy: 2 }));
    assert_eq!(Instruction::new(0x6A42), Ok(Instruction::SetImmediate { vx: 0xA, nn: 0x42 }));
    assert_eq!(Instruction::new(0x7F01), Ok(Instruction::AddImmediate { vx: 0xF, nn: 0x01 }));
    assert_eq!(Instruction::new(0x8120), Ok(Instruction::Copy { vx: 1, vy: 2 }));
    assert_eq!(Instruction::new(0x8121), Ok(Instruction::BitwiseOr { vx: 1, vy: 2 }));
    assert_eq!(Instruction::new(0x8122), Ok(Instruction::BitwiseAnd { vx: 1, vy: 2 }));
    assert_eq!(Instruction::new(0x8123), Ok(Instruction::BitwiseXor { vx: 1, vy: 2 }));
    assert_eq!(Instruction::new(0x8124), Ok(Instruction::Add { vx: 1, vy: 2 }));
    assert_eq!(Instruction::new(0x8125), Ok(Instruction::Subtract { vx: 1, vy: 2 }));
    assert_eq!(Instruction::new(0x8AB6), Ok(Instruction::RightShift { vx: 0xA }));
    assert_eq!(Instruction::new(0x8127), Ok(Instruction::SetVxToVyMinusVx { vx: 1, vy: 2 }));
    assert_eq!(Instruction::new(0x8ABE), Ok(Instruction::LeftShift { vx: 0xA }));
    assert_eq!(Instruction::new(0x9120), Ok(Instruction::SkipIfRegisterVxNotEqualsVy { vx: 1, vy: 2 }));
    assert_eq!(Instruction::new(0xA123), Ok(Instruction::SetIndexRegister { nnn: 0x123 }));
    assert_eq!(Instruction::new(0xB123), Ok(Instruction::JumpWithPcOffset { nnn: 0x123 }));
    assert_eq!(Instruction::new(0xC30F), Ok(Instruction::Random { vx: 3, nn: 0x0F }));
    assert_eq!(Instruction::new(0xD123), Ok(Instruction::Draw { vx: 1, vy: 2, n: 3 }));
    assert_eq!(Instruction::new(0xE59E), Ok(Instruction::SkipIfKeyPressed { vx: 5 }));
    assert_eq!(Instruction::new(0xE5A1), Ok(Instruction::SkipIfKeyNotPressed { vx: 5 }));
    assert_eq!(Instruction::new(0xF507), Ok(Instruction::SetVxToDelayTimer { vx: 5 }));
    assert_eq!(Instruction::new(0xF50A), Ok(Instruction::AwaitKeyInput { vx: 5 }));
    assert_eq!(Instruction::new(0xF515), Ok(Instruction::SetDelayTimer { vx: 5 }));
    assert_eq!(Instruction::new(0xF518), Ok(Instruction::SetSoundTimer { vx: 5 }));
    assert_eq!(Instruction::new(0xF51E), Ok(Instruction::AddToIndex { vx: 5 }));
    assert_eq!(Instruction::new(0xF529), Ok(Instruction::SetIndexToFontCharacter { vx: 5 }));
    assert_eq!(Instruction::new(0xF533), Ok(Instruction::SetIndexToBinaryCodedVx { vx: 5 }));
    assert_eq!(Instruction::new(0xF555), Ok(Instruction::DumpRegisters { vx: 5 }));
    assert_eq!(Instruction::new(0xF565), Ok(Instruction::LoadRegisters { vx: 5 }));
}

#[test]
fn decode_is_total_over_every_word() {
    for w in 0..=u16::MAX {
        match Instruction::new(w) {
            Ok(_) => {}
            Err(Chip8Error::ProgramNotCompatible) => assert_eq!(w >> 12, 0),
            Err(Chip8Error::InvalidInstruction { instruction }) => assert_eq!(instruction, w),
            Err(e) => panic!("unexpected error {:?} for {:#06X}", e, w),
        }
    }
}
