//! Decoding of 16-bit instruction words.
use vstd::prelude::*;

use crate::error::Chip8Error;

verus! {

/// A decoded instruction with its operand fields.
///
/// In the encodings below, `X` and `Y` name registers, `N` is a 4-bit
/// constant, `NN` an 8-bit constant and `NNN` a 12-bit address.
#[derive(Debug, Clone, Copy, PartialEq, Eq, Structural)]
pub enum Instruction {
    /// `0NNN`: a call of a native routine; never produced by decoding.
    CallMachineCodeRoutine,
    /// `00E0`: clears the screen.
    Clear,
    /// `00EE`: returns from a subroutine.
    Return,
    /// `1NNN`: jumps to NNN.
    Jump { nnn: u16 },
    /// `2NNN`: calls the subroutine at NNN.
    Call { nnn: u16 },
    /// `3XNN`: skips the next instruction if VX == NN.
    SkipIfRegisterEquals { vx: u8, nn: u8 },
    /// `4XNN`: skips the next instruction if VX != NN.
    SkipIfRegisterNotEquals { vx: u8, nn: u8 },
    /// `5XY0`: skips the next instruction if VX == VY.
    SkipIfRegisterVxEqualsVy { vx: u8, vy: u8 },
    /// `6XNN`: sets VX to NN.
    SetImmediate { vx: u8, nn: u8 },
    /// `7XNN`: adds NN to VX.
    AddImmediate { vx: u8, nn: u8 },
    /// `8XY0`: copies VY to VX.
    Copy { vx: u8, vy: u8 },
    /// `8XY1`
    BitwiseOr { vx: u8, vy: u8 },
    /// `8XY2`
    BitwiseAnd { vx: u8, vy: u8 },
    /// `8XY3`
    BitwiseXor { vx: u8, vy: u8 },
    /// `8XY4`
    Add { vx: u8, vy: u8 },
    /// `8XY5`
    Subtract { vx: u8, vy: u8 },
    /// `8XY6`
    RightShift { vx: u8 },
    /// `8XY7`
    SetVxToVyMinusVx { vx: u8, vy: u8 },
    /// `8XYE`
    LeftShift { vx: u8 },
    /// `9XY0`: skips the next instruction if VX != VY.
    SkipIfRegisterVxNotEqualsVy { vx: u8, vy: u8 },
    /// `ANNN`
    SetIndexRegister { nnn: u16 },
    /// `BNNN`
    JumpWithPcOffset { nnn: u16 },
    /// `CXNN`
    Random { vx: u8, nn: u8 },
    /// `DXYN`
    Draw { vx: u8, vy: u8, n: u8 },
    /// `EX9E`
    SkipIfKeyPressed { vx: u8 },
    /// `EXA1`
    SkipIfKeyNotPressed { vx: u8 },
    /// `FX07`
    SetVxToDelayTimer { vx: u8 },
    /// `FX0A`
    AwaitKeyInput { vx: u8 },
    /// `FX15`
    SetDelayTimer { vx: u8 },
    /// `FX18`
    SetSoundTimer { vx: u8 },
    /// `FX1E`
    AddToIndex { vx: u8 },
    /// `FX29`
    SetIndexToFontCharacter { vx: u8 },
    /// `FX33`
    SetIndexToBinaryCodedVx { vx: u8 },
    /// `FX55`
    DumpRegisters { vx: u8 },
    /// `FX65`
    LoadRegisters { vx: u8 },
    /// A value that stands for no instruction; never produced by decoding.
    Unknown,
}

/// Bits 15-12 of `w`: the family of the instruction.
pub open spec fn top_nibble(w: u16) -> u16 {
    w / 0x1000
}

/// Bits 11-8 of `w`: the register X.
pub open spec fn field_x(w: u16) -> u8 {
    ((w / 0x100) % 0x10) as u8
}

/// Bits 7-4 of `w`: the register Y.
pub open spec fn field_y(w: u16) -> u8 {
    ((w / 0x10) % 0x10) as u8
}

/// Bits 3-0 of `w`: the constant N.
pub open spec fn field_n(w: u16) -> u8 {
    (w % 0x10) as u8
}

/// Bits 7-0 of `w`: the constant NN.
pub open spec fn field_nn(w: u16) -> u8 {
    (w % 0x100) as u8
}

/// Bits 11-0 of `w`: the address NNN.
pub open spec fn field_nnn(w: u16) -> u16 {
    w % 0x1000
}

/// What decoding `w` gives.
pub open spec fn decode(w: u16) -> Result<Instruction, Chip8Error> {
    let x = field_x(w);
    let y = field_y(w);
    let nn = field_nn(w);
    let nnn = field_nnn(w);
    let invalid = Err(Chip8Error::InvalidInstruction { instruction: w });
    match top_nibble(w) {
        0x0 => if w == 0x00E0 {
            Ok(Instruction::Clear)
        } else if w == 0x00EE {
            Ok(Instruction::Return)
        } else {
            Err(Chip8Error::ProgramNotCompatible)
        },
        0x1 => Ok(Instruction::Jump { nnn }),
        0x2 => Ok(Instruction::Call { nnn }),
        0x3 => Ok(Instruction::SkipIfRegisterEquals { vx: x, nn }),
        0x4 => Ok(Instruction::SkipIfRegisterNotEquals { vx: x, nn }),
        0x5 => Ok(Instruction::SkipIfRegisterVxEqualsVy { vx: x, vy: y }),
        0x6 => Ok(Instruction::SetImmediate { vx: x, nn }),
        0x7 => Ok(Instruction::AddImmediate { vx: x, nn }),
        0x8 => match field_n(w) {
            0x0 => Ok(Instruction::Copy { vx: x, vy: y }),
            0x1 => Ok(Instruction::BitwiseOr { vx: x, vy: y }),
            0x2 => Ok(Instruction::BitwiseAnd { vx: x, vy: y }),
            0x3 => Ok(Instruction::BitwiseXor { vx: x, vy: y }),
            0x4 => Ok(Instruction::Add { vx: x, vy: y }),
            0x5 => Ok(Instruction::Subtract { vx: x, vy: y }),
            0x6 => Ok(Instruction::RightShift { vx: x }),
            0x7 => Ok(Instruction::SetVxToVyMinusVx { vx: x, vy: y }),
            0xE => Ok(Instruction::LeftShift { vx: x }),
            _ => invalid,
        },
        0x9 => Ok(Instruction::SkipIfRegisterVxNotEqualsVy { vx: x, vy: y }),
        0xA => Ok(Instruction::SetIndexRegister { nnn }),
        0xB => Ok(Instruction::JumpWithPcOffset { nnn }),
        0xC => Ok(Instruction::Random { vx: x, nn }),
        0xD => Ok(Instruction::Draw { vx: x, vy: y, n: field_n(w) }),
        0xE => if nn == 0x9E {
            Ok(Instruction::SkipIfKeyPressed { vx: x })
        } else if nn == 0xA1 {
            Ok(Instruction::SkipIfKeyNotPressed { vx: x })
        } else {
            invalid
        },
        0xF => match nn {
            0x07 => Ok(Instruction::SetVxToDelayTimer { vx: x }),
            0x0A => Ok(Instruction::AwaitKeyInput { vx: x }),
            0x15 => Ok(Instruction::SetDelayTimer { vx: x }),
            0x18 => Ok(Instruction::SetSoundTimer { vx: x }),
            0x1E => Ok(Instruction::AddToIndex { vx: x }),
            0x29 => Ok(Instruction::SetIndexToFontCharacter { vx: x }),
            0x33 => Ok(Instruction::SetIndexToBinaryCodedVx { vx: x }),
            0x55 => Ok(Instruction::DumpRegisters { vx: x }),
            0x65 => Ok(Instruction::LoadRegisters { vx: x }),
            _ => invalid,
        },
        _ => invalid,
    }
}

impl Instruction {
    /// Whether every operand is within the width of its field: registers
    /// and N below 16, addresses below 0x1000.
    pub open spec fn wf(self) -> bool {
        match self {
            Instruction::Jump { nnn } => nnn < 0x1000,
            Instruction::Call { nnn } => nnn < 0x1000,
            Instruction::SetIndexRegister { nnn } => nnn < 0x1000,
            Instruction::JumpWithPcOffset { nnn } => nnn < 0x1000,
            Instruction::SkipIfRegisterEquals { vx, nn } => vx < 16,
            Instruction::SkipIfRegisterNotEquals { vx, nn } => vx < 16,
            Instruction::SetImmediate { vx, nn } => vx < 16,
            Instruction::AddImmediate { vx, nn } => vx < 16,
            Instruction::Random { vx, nn } => vx < 16,
            Instruction::SkipIfRegisterVxEqualsVy { vx, vy } => vx < 16 && vy < 16,
            Instruction::Copy { vx, vy } => vx < 16 && vy < 16,
            Instruction::BitwiseOr { vx, vy } => vx < 16 && vy < 16,
            Instruction::BitwiseAnd { vx, vy } => vx < 16 && vy < 16,
            Instruction::BitwiseXor { vx, vy } => vx < 16 && vy < 16,
            Instruction::Add { vx, vy } => vx < 16 && vy < 16,
            Instruction::Subtract { vx, vy } => vx < 16 && vy < 16,
            Instruction::SetVxToVyMinusVx { vx, vy } => vx < 16 && vy < 16,
            Instruction::SkipIfRegisterVxNotEqualsVy { vx, vy } => vx < 16 && vy < 16,
            Instruction::Draw { vx, vy, n } => vx < 16 && vy < 16 && n < 16,
            Instruction::RightShift { vx } => vx < 16,
            Instruction::LeftShift { vx } => vx < 16,
            Instruction::SkipIfKeyPressed { vx } => vx < 16,
            Instruction::SkipIfKeyNotPressed { vx } => vx < 16,
            Instruction::SetVxToDelayTimer { vx } => vx < 16,
            Instruction::AwaitKeyInput { vx } => vx < 16,
            Instruction::SetDelayTimer { vx } => vx < 16,
            Instruction::SetSoundTimer { vx } => vx < 16,
            Instruction::AddToIndex { vx } => vx < 16,
            Instruction::SetIndexToFontCharacter { vx } => vx < 16,
            Instruction::SetIndexToBinaryCodedVx { vx } => vx < 16,
            Instruction::DumpRegisters { vx } => vx < 16,
            Instruction::LoadRegisters { vx } => vx < 16,
            _ => true,
        }
    }

    /// Decodes the instruction word `raw`.
    ///
    /// Dispatch is on the top nibble; the families `8`, `E` and `F` look
    /// further at the low byte or low nibble, and the family `0` at the whole
    /// word. A `0NNN` word other than `00E0` and `00EE` is
    /// [`Chip8Error::ProgramNotCompatible`]; any other word that encodes
    /// nothing is [`Chip8Error::InvalidInstruction`].
    pub fn new(raw: u16) -> (r: Result<Instruction, Chip8Error>)
        ensures
            r == decode(raw),
            r is Ok ==> r->Ok_0.wf(),
    {
        let first_nibble = raw >> 12u16;
        let vx = ((raw & 0x0F00u16) >> 8u16) as u8;
        let vy = ((raw & 0x00F0u16) >> 4u16) as u8;
        let nnn = raw & 0x0FFFu16;
        let nn = (raw & 0x00FFu16) as u8;
        let n = (raw & 0x000Fu16) as u8;
        assert(first_nibble == top_nibble(raw) && vx == field_x(raw) && vy == field_y(raw)
            && nnn == field_nnn(raw) && nn == field_nn(raw) && n == field_n(raw)) by (bit_vector)
            requires
                first_nibble == raw >> 12u16,
                vx == ((raw & 0x0F00u16) >> 8u16) as u8,
                vy == ((raw & 0x00F0u16) >> 4u16) as u8,
                nnn == raw & 0x0FFFu16,
                nn == (raw & 0x00FFu16) as u8,
                n == (raw & 0x000Fu16) as u8,
        ;
        let instruction = match first_nibble {
            0x0 => {
                if raw == 0x00E0 {
                    Instruction::Clear
                } else if raw == 0x00EE {
                    Instruction::Return
                } else {
                    return Err(Chip8Error::ProgramNotCompatible);
                }
            },
            0x1 => Instruction::Jump { nnn },
            0x2 => Instruction::Call { nnn },
            0x3 => Instruction::SkipIfRegisterEquals { vx, nn },
            0x4 => Instruction::SkipIfRegisterNotEquals { vx, nn },
            0x5 => Instruction::SkipIfRegisterVxEqualsVy { vx, vy },
            0x6 => Instruction::SetImmediate { vx, nn },
            0x7 => Instruction::AddImmediate { vx, nn },
            0x8 => match n {
                0x0 => Instruction::Copy { vx, vy },
                0x1 => Instruction::BitwiseOr { vx, vy },
                0x2 => Instruction::BitwiseAnd { vx, vy },
                0x3 => Instruction::BitwiseXor { vx, vy },
                0x4 => Instruction::Add { vx, vy },
                0x5 => Instruction::Subtract { vx, vy },
                0x6 => Instruction::RightShift { vx },
                0x7 => Instruction::SetVxToVyMinusVx { vx, vy },
                0xE => Instruction::LeftShift { vx },
                _ => return Err(Chip8Error::InvalidInstruction { instruction: raw }),
            },
            0x9 => Instruction::SkipIfRegisterVxNotEqualsVy { vx, vy },
            0xA => Instruction::SetIndexRegister { nnn },
            0xB => Instruction::JumpWithPcOffset { nnn },
            0xC => Instruction::Random { vx, nn },
            0xD => Instruction::Draw { vx, vy, n },
            0xE => {
                if nn == 0x9E {
                    Instruction::SkipIfKeyPressed { vx }
                } else if nn == 0xA1 {
                    Instruction::SkipIfKeyNotPressed { vx }
                } else {
                    return Err(Chip8Error::InvalidInstruction { instruction: raw });
                }
            },
            0xF => match nn {
                0x07 => Instruction::SetVxToDelayTimer { vx },
                0x0A => Instruction::AwaitKeyInput { vx },
                0x15 => Instruction::SetDelayTimer { vx },
                0x18 => Instruction::SetSoundTimer { vx },
                0x1E => Instruction::AddToIndex { vx },
                0x29 => Instruction::SetIndexToFontCharacter { vx },
                0x33 => Instruction::SetIndexToBinaryCodedVx { vx },
                0x55 => Instruction::DumpRegisters { vx },
                0x65 => Instruction::LoadRegisters { vx },
                _ => return Err(Chip8Error::InvalidInstruction { instruction: raw }),
            },
            _ => return Err(Chip8Error::InvalidInstruction { instruction: raw }),
        };
        Ok(instruction)
    }
}

/// Decoding is total: every word decodes to a well-formed instruction, or is
/// a native-routine call, or is reported as an invalid word carrying itself.
pub proof fn lemma_decode_total(w: u16)
    ensures
        decode(w) is Ok && decode(w)->Ok_0.wf()
            || decode(w) == Err::<Instruction, Chip8Error>(Chip8Error::ProgramNotCompatible)
            || decode(w) == Err::<Instruction, Chip8Error>(
            Chip8Error::InvalidInstruction { instruction: w },
        ),
{
}

} // verus!
