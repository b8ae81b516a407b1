//! What each instruction does to the machine state, and what a cycle does.
use vstd::prelude::*;

use crate::error::Chip8Error;
use crate::instruction::{decode, Instruction};
use crate::memory::{word_at, with_word, MEMORY_SIZE};
use crate::screen::{blank_screen, SCREEN_SIZE};
use crate::state::{
    load_program_spec, EmulatorState, MachineState, FLAG_REGISTER, STACK_BOTTOM, STACK_TOP,
};
use crate::{HEIGHT, WIDTH};

verus! {

/// `v` reduced to 16 bits, for a non-negative `v`.
pub open spec fn wrap16(v: int) -> u16 {
    (v % 0x10000) as u16
}

/// `s` with register `x` set to `v`.
pub open spec fn with_reg(s: MachineState, x: int, v: u8) -> MachineState {
    MachineState { registers: s.registers.update(x, v), ..s }
}

/// `s` with register `x` set to `v` and then VF set to `flag`.
pub open spec fn with_reg_and_flag(s: MachineState, x: int, v: u8, flag: u8) -> MachineState {
    MachineState { registers: s.registers.update(x, v).update(FLAG_REGISTER as int, flag), ..s }
}

/// `s` with the program counter set to `pc`.
pub open spec fn with_pc(s: MachineState, pc: u16) -> MachineState {
    MachineState { program_counter: pc, ..s }
}

/// `s` with the next instruction skipped when `c` holds.
pub open spec fn skip_if(s: MachineState, c: bool) -> MachineState {
    if c {
        with_pc(s, wrap16(s.program_counter + 2))
    } else {
        s
    }
}

/// 1 when `c` holds, else 0.
pub open spec fn flag(c: bool) -> u8 {
    if c {
        1
    } else {
        0
    }
}

// ---- stack ----

/// Pushing `w`: the word goes into the slot below the stack pointer, or the
/// push fails with [`Chip8Error::StackOverflow`] when every slot is in use.
pub open spec fn push_spec(s: MachineState, w: u16) -> Result<MachineState, Chip8Error> {
    if s.stack_pointer == STACK_TOP {
        Err(Chip8Error::StackOverflow)
    } else {
        let sp = (s.stack_pointer - 2) as u16;
        Ok(MachineState { memory: with_word(s.memory, sp as int, w), stack_pointer: sp, ..s })
    }
}

/// Popping: the word in the slot at the stack pointer, with the pointer
/// moved up one slot, or [`Chip8Error::StackUnderflow`] when the stack is empty.
pub open spec fn pop_spec(s: MachineState) -> Result<(u16, MachineState), Chip8Error> {
    if s.stack_pointer == STACK_BOTTOM {
        Err(Chip8Error::StackUnderflow)
    } else {
        Ok(
            (
                word_at(s.memory, s.stack_pointer as int),
                MachineState { stack_pointer: (s.stack_pointer + 2) as u16, ..s },
            ),
        )
    }
}

// ---- instructions ----

/// `00E0`: every pixel off.
pub open spec fn clear_spec(s: MachineState) -> MachineState {
    MachineState { screen: blank_screen(), frame_pending: true, ..s }
}

/// `00EE`: the program counter is popped from the stack.
pub open spec fn return_spec(s: MachineState) -> Result<MachineState, Chip8Error> {
    match pop_spec(s) {
        Ok((w, t)) => Ok(with_pc(t, w)),
        Err(e) => Err(e),
    }
}

/// `2NNN`: the program counter is pushed, then set to NNN.
pub open spec fn call_spec(s: MachineState, nnn: u16) -> Result<MachineState, Chip8Error> {
    match push_spec(s, s.program_counter) {
        Ok(t) => Ok(with_pc(t, nnn)),
        Err(e) => Err(e),
    }
}

/// `7XNN`: VX := VX + NN modulo 256; VF := 1 when the sum exceeds 255, else 0.
pub open spec fn add_immediate_spec(s: MachineState, x: int, nn: u8) -> MachineState {
    let sum = s.reg(x) + nn;
    with_reg_and_flag(s, x, (sum % 256) as u8, flag(sum > 255))
}

/// `8XY4`: VX := VX + VY modulo 256; VF := 1 when the sum exceeds 255, else 0.
pub open spec fn add_spec(s: MachineState, x: int, y: int) -> MachineState {
    let sum = s.reg(x) + s.reg(y);
    with_reg_and_flag(s, x, (sum % 256) as u8, flag(sum > 255))
}

/// `8XY5`: VX := VX - VY modulo 256; VF := 1 when VX < VY (the subtraction
/// underflowed), else 0.
pub open spec fn subtract_spec(s: MachineState, x: int, y: int) -> MachineState {
    let diff = s.reg(x) - s.reg(y);
    with_reg_and_flag(s, x, ((diff + 256) % 256) as u8, flag(s.reg(x) < s.reg(y)))
}

/// `8XY7`: VX := VY - VX modulo 256; VF := 1 when VY < VX (the subtraction
/// underflowed), else 0.
pub open spec fn vy_minus_vx_spec(s: MachineState, x: int, y: int) -> MachineState {
    let diff = s.reg(y) - s.reg(x);
    with_reg_and_flag(s, x, ((diff + 256) % 256) as u8, flag(s.reg(y) < s.reg(x)))
}

/// `8XY6`: VF := the low bit of VX; then VX := VX / 2.
pub open spec fn right_shift_spec(s: MachineState, x: int) -> MachineState {
    let regs = s.registers.update(FLAG_REGISTER as int, (s.reg(x) % 2) as u8);
    MachineState { registers: regs.update(x, (regs[x] / 2) as u8), ..s }
}

/// `8XYE`: VF := VX & 0x80, the high bit left in place (0x80 or 0); then
/// VX := VX * 2 modulo 256.
pub open spec fn left_shift_spec(s: MachineState, x: int) -> MachineState {
    let high: u8 = if s.reg(x) >= 0x80 {
        0x80
    } else {
        0
    };
    let regs = s.registers.update(FLAG_REGISTER as int, high);
    MachineState { registers: regs.update(x, ((regs[x] * 2) % 256) as u8), ..s }
}

/// `EX9E`: when the held key equals VX, skips and releases the key.
pub open spec fn skip_if_key_pressed_spec(s: MachineState, x: int) -> MachineState {
    if s.key_pressed == Some(s.reg(x)) {
        MachineState {
            program_counter: wrap16(s.program_counter + 2),
            key_pressed: None,
            ..s
        }
    } else {
        s
    }
}

/// `EXA1`: skips unless a key is held and differs from VX.
pub open spec fn skip_if_key_not_pressed_spec(s: MachineState, x: int) -> MachineState {
    skip_if(
        s,
        match s.key_pressed {
            Some(k) => k == s.reg(x),
            None => true,
        },
    )
}

/// `FX0A`: with a key held, VX := the key and the key is released; with no
/// key held, the program counter steps back so that the instruction runs again.
pub open spec fn await_key_input_spec(s: MachineState, x: int) -> MachineState {
    match s.key_pressed {
        Some(k) => MachineState { registers: s.registers.update(x, k), key_pressed: None, ..s },
        None => with_pc(s, wrap16(s.program_counter + 0x10000 - 2)),
    }
}

/// Whether an access of `len` bytes from `start` reaches past the end of memory.
pub open spec fn out_of_range(start: int, len: int) -> bool {
    start + len > MEMORY_SIZE
}

/// `FX33`: the hundreds, tens and ones of VX are written at I, I+1 and I+2.
pub open spec fn binary_coded_spec(s: MachineState, x: int) -> Result<MachineState, Chip8Error> {
    let i = s.index_register as int;
    let v = s.reg(x);
    if out_of_range(i, 3) {
        Err(Chip8Error::AddressOutOfRange { address: s.index_register as usize })
    } else {
        Ok(
            MachineState {
                memory: s.memory.update(i, (v / 100) as u8).update(i + 1, ((v / 10) % 10) as u8).update(
                    i + 2,
                    (v % 10) as u8,
                ),
                ..s
            },
        )
    }
}

/// `FX55`: V0 to VX are written at I to I+X.
pub open spec fn dump_registers_spec(s: MachineState, x: int) -> Result<MachineState, Chip8Error> {
    let i = s.index_register as int;
    if out_of_range(i, x + 1) {
        Err(Chip8Error::AddressOutOfRange { address: s.index_register as usize })
    } else {
        Ok(
            MachineState {
                memory: Seq::new(
                    s.memory.len(),
                    |a: int|
                        if i <= a <= i + x {
                            s.registers[a - i]
                        } else {
                            s.memory[a]
                        },
                ),
                ..s
            },
        )
    }
}

/// `FX65`: V0 to VX are read from I to I+X.
pub open spec fn load_registers_spec(s: MachineState, x: int) -> Result<MachineState, Chip8Error> {
    let i = s.index_register as int;
    if out_of_range(i, x + 1) {
        Err(Chip8Error::AddressOutOfRange { address: s.index_register as usize })
    } else {
        Ok(
            MachineState {
                registers: Seq::new(
                    s.registers.len(),
                    |r: int|
                        if r <= x {
                            s.memory[i + r]
                        } else {
                            s.registers[r]
                        },
                ),
                ..s
            },
        )
    }
}

// ---- drawing ----

/// Bit `col` of a sprite row, counted from the most significant bit.
pub open spec fn sprite_bit(row: u8, col: int) -> bool {
    (row >> ((7 - col) as u8)) & 1u8 == 1u8
}

/// The number of sprite rows that land on the display when `n` rows are
/// drawn from row `y0`: drawing stops at the bottom edge.
pub open spec fn drawn_rows(y0: int, n: int) -> int {
    if n <= HEIGHT - y0 {
        n
    } else {
        HEIGHT - y0
    }
}

/// The number of sprite columns that land on the display when drawing from
/// column `x0`: a row stops at the right edge.
pub open spec fn drawn_cols(x0: int) -> int {
    if 8 <= WIDTH - x0 {
        8
    } else {
        WIDTH - x0
    }
}

/// Whether the pixel at (`px`, `py`) is flipped by an `n`-row sprite read
/// at `i` in `mem` and drawn with its top left corner at (`x0`, `y0`).
pub open spec fn sprite_covers(
    mem: Seq<u8>,
    i: int,
    x0: int,
    y0: int,
    n: int,
    px: int,
    py: int,
) -> bool {
    let row = py - y0;
    let col = px - x0;
    &&& 0 <= row < drawn_rows(y0, n)
    &&& 0 <= col < drawn_cols(x0)
    &&& sprite_bit(mem[i + row], col)
}

/// Whether `DXYN` with registers `x`, `y` and `n` rows flips pixel `p` of
/// `s`: the origin is read after VF is cleared.
pub open spec fn draw_covers(s: MachineState, x: int, y: int, n: int, p: int) -> bool {
    let regs = s.registers.update(FLAG_REGISTER as int, 0u8);
    sprite_covers(
        s.memory,
        s.index_register as int,
        regs[x] as int % (WIDTH as int),
        regs[y] as int % (HEIGHT as int),
        n,
        p % 64,
        p / 64,
    )
}

/// `DXYN`: VF := 0; the sprite of N rows at I is XORed onto the display
/// with its top left corner at (VX mod 64, VY mod 32), with no wrapping;
/// VF := 1 when a lit pixel was turned off. The display awaits presentation.
pub open spec fn draw_spec(s: MachineState, x: int, y: int, n: int) -> Result<
    MachineState,
    Chip8Error,
> {
    let regs = s.registers.update(FLAG_REGISTER as int, 0u8);
    let x0 = regs[x] as int % (WIDTH as int);
    let y0 = regs[y] as int % (HEIGHT as int);
    let i = s.index_register as int;
    if out_of_range(i, drawn_rows(y0, n)) {
        Err(Chip8Error::AddressOutOfRange { address: s.index_register as usize })
    } else {
        let covers = |p: int| draw_covers(s, x, y, n, p);
        let collision = exists|p: int| 0 <= p < SCREEN_SIZE && covers(p) && s.screen[p];
        Ok(
            MachineState {
                screen: Seq::new(s.screen.len(), |p: int| s.screen[p] != covers(p)),
                registers: regs.update(FLAG_REGISTER as int, flag(collision)),
                frame_pending: true,
                ..s
            },
        )
    }
}

// ---- dispatch ----

/// What executing `ins` does to `s`, with `random` as the byte drawn by
/// `CXNN`. On an error the state is left as it was.
pub open spec fn execute_spec(s: MachineState, ins: Instruction, random: u8) -> Result<
    MachineState,
    Chip8Error,
> {
    match ins {
        Instruction::CallMachineCodeRoutine => Err(
            Chip8Error::UnimplementedInstruction { instruction: ins },
        ),
        Instruction::Unknown => Err(Chip8Error::UnimplementedInstruction { instruction: ins }),
        Instruction::Clear => Ok(clear_spec(s)),
        Instruction::Return => return_spec(s),
        Instruction::Jump { nnn } => Ok(with_pc(s, nnn)),
        Instruction::Call { nnn } => call_spec(s, nnn),
        Instruction::SkipIfRegisterEquals { vx, nn } => Ok(skip_if(s, s.reg(vx as int) == nn)),
        Instruction::SkipIfRegisterNotEquals { vx, nn } => Ok(skip_if(s, s.reg(vx as int) != nn)),
        Instruction::SkipIfRegisterVxEqualsVy { vx, vy } => Ok(
            skip_if(s, s.reg(vx as int) == s.reg(vy as int)),
        ),
        Instruction::SetImmediate { vx, nn } => Ok(with_reg(s, vx as int, nn)),
        Instruction::AddImmediate { vx, nn } => Ok(add_immediate_spec(s, vx as int, nn)),
        Instruction::Copy { vx, vy } => Ok(with_reg(s, vx as int, s.reg(vy as int))),
        Instruction::BitwiseOr { vx, vy } => Ok(
            with_reg(s, vx as int, s.reg(vx as int) | s.reg(vy as int)),
        ),
        Instruction::BitwiseAnd { vx, vy } => Ok(
            with_reg(s, vx as int, s.reg(vx as int) & s.reg(vy as int)),
        ),
        Instruction::BitwiseXor { vx, vy } => Ok(
            with_reg(s, vx as int, s.reg(vx as int) ^ s.reg(vy as int)),
        ),
        Instruction::Add { vx, vy } => Ok(add_spec(s, vx as int, vy as int)),
        Instruction::Subtract { vx, vy } => Ok(subtract_spec(s, vx as int, vy as int)),
        Instruction::RightShift { vx } => Ok(right_shift_spec(s, vx as int)),
        Instruction::SetVxToVyMinusVx { vx, vy } => Ok(vy_minus_vx_spec(s, vx as int, vy as int)),
        Instruction::LeftShift { vx } => Ok(left_shift_spec(s, vx as int)),
        Instruction::SkipIfRegisterVxNotEqualsVy { vx, vy } => Ok(
            skip_if(s, s.reg(vx as int) != s.reg(vy as int)),
        ),
        Instruction::SetIndexRegister { nnn } => Ok(MachineState { index_register: nnn, ..s }),
        Instruction::JumpWithPcOffset { nnn } => Ok(with_pc(s, wrap16(s.reg(0) + nnn))),
        Instruction::Random { vx, nn } => Ok(with_reg(s, vx as int, random & nn)),
        Instruction::Draw { vx, vy, n } => draw_spec(s, vx as int, vy as int, n as int),
        Instruction::SkipIfKeyPressed { vx } => Ok(skip_if_key_pressed_spec(s, vx as int)),
        Instruction::SkipIfKeyNotPressed { vx } => Ok(skip_if_key_not_pressed_spec(s, vx as int)),
        Instruction::SetVxToDelayTimer { vx } => Ok(with_reg(s, vx as int, s.delay_timer)),
        Instruction::AwaitKeyInput { vx } => Ok(await_key_input_spec(s, vx as int)),
        Instruction::SetDelayTimer { vx } => Ok(MachineState { delay_timer: s.reg(vx as int), ..s }),
        Instruction::SetSoundTimer { vx } => Ok(MachineState { sound_timer: s.reg(vx as int), ..s }),
        Instruction::AddToIndex { vx } => Ok(
            MachineState { index_register: wrap16(s.index_register + s.reg(vx as int)), ..s },
        ),
        Instruction::SetIndexToFontCharacter { vx } => Ok(
            MachineState { index_register: s.reg(vx as int) as u16, ..s },
        ),
        Instruction::SetIndexToBinaryCodedVx { vx } => binary_coded_spec(s, vx as int),
        Instruction::DumpRegisters { vx } => dump_registers_spec(s, vx as int),
        Instruction::LoadRegisters { vx } => load_registers_spec(s, vx as int),
    }
}

/// Whether a call that returned `r` and left `after` carried out `outcome`
/// from `before`: the new state on success, the state untouched on an error.
pub open spec fn carried_out(
    outcome: Result<MachineState, Chip8Error>,
    before: MachineState,
    r: Result<(), Chip8Error>,
    after: MachineState,
) -> bool {
    match outcome {
        Ok(t) => r is Ok && after == t,
        Err(e) => r == Err::<(), Chip8Error>(e) && after == before,
    }
}

/// One fetch-decode-execute step from `s`, with `random` as the byte that
/// `CXNN` would draw: the state after it and the result. A program must be
/// loaded; the word at the program counter is read and the counter moves
/// past it before decoding, so a decoding or execution error leaves the
/// counter moved.
pub open spec fn cycle_spec(s: MachineState, random: u8) -> (MachineState, Result<(), Chip8Error>) {
    if s.emulator_state != EmulatorState::ProgramLoaded {
        (s, Err(Chip8Error::ProgramNotLoaded))
    } else if out_of_range(s.program_counter as int, 2) {
        (s, Err(Chip8Error::AddressOutOfRange { address: s.program_counter as usize }))
    } else {
        let fetched = with_pc(s, wrap16(s.program_counter + 2));
        match decode(word_at(s.memory, s.program_counter as int)) {
            Err(e) => (fetched, Err(e)),
            Ok(ins) => match execute_spec(fetched, ins, random) {
                Ok(t) => (t, Ok(())),
                Err(e) => (fetched, Err(e)),
            },
        }
    }
}

/// Drawing the same sprite twice at the same place restores the display;
/// the second draw reports a collision exactly when a pixel that the sprite
/// touches was off before the first. So when the touched pixels start off and
/// the sprite touches at least one, the second draw turns them all back off
/// and sets VF to 1.
pub proof fn lemma_draw_twice(s: MachineState, x: int, y: int, n: int)
    requires
        s.wf(),
        0 <= x < 16,
        0 <= y < 16,
        0 <= n < 16,
        draw_spec(s, x, y, n) is Ok,
    ensures
        draw_spec(draw_spec(s, x, y, n)->Ok_0, x, y, n) is Ok,
        draw_spec(draw_spec(s, x, y, n)->Ok_0, x, y, n)->Ok_0.screen == s.screen,
        draw_spec(draw_spec(s, x, y, n)->Ok_0, x, y, n)->Ok_0.reg(FLAG_REGISTER as int) == flag(
            exists|p: int| 0 <= p < SCREEN_SIZE && #[trigger] draw_covers(s, x, y, n, p) && !s.screen[p],
        ),
        (forall|p: int| 0 <= p < SCREEN_SIZE && #[trigger] draw_covers(s, x, y, n, p) ==> !s.screen[p])
            && (exists|p: int| 0 <= p < SCREEN_SIZE && #[trigger] draw_covers(s, x, y, n, p))
            ==> draw_spec(draw_spec(s, x, y, n)->Ok_0, x, y, n)->Ok_0.reg(FLAG_REGISTER as int)
            == 1,
{
    let t = draw_spec(s, x, y, n)->Ok_0;
    assert(t.registers.update(FLAG_REGISTER as int, 0u8) =~= s.registers.update(
        FLAG_REGISTER as int,
        0u8,
    ));
    assert forall|p: int| #[trigger] draw_covers(t, x, y, n, p) == draw_covers(s, x, y, n, p) by {};
    let u = draw_spec(t, x, y, n)->Ok_0;
    assert(u.screen =~= s.screen);
    if (forall|p: int| 0 <= p < SCREEN_SIZE && #[trigger] draw_covers(s, x, y, n, p) ==> !s.screen[p])
        && (exists|p: int| 0 <= p < SCREEN_SIZE && #[trigger] draw_covers(s, x, y, n, p)) {
        let w = choose|p: int| 0 <= p < SCREEN_SIZE && #[trigger] draw_covers(s, x, y, n, p);
        assert(draw_covers(s, x, y, n, w) && !s.screen[w]);
    }
}

/// Lifecycle order: no cycle runs before a program is loaded, and no program
/// is loaded before memory is initialized.
pub proof fn lemma_lifecycle_order(s: MachineState, random: u8, program: Seq<u8>)
    ensures
        s.emulator_state != EmulatorState::ProgramLoaded ==> cycle_spec(s, random) == (
            s,
            Err::<(), Chip8Error>(Chip8Error::ProgramNotLoaded),
        ),
        s.emulator_state == EmulatorState::InterpreterMemoryUninitialized ==> load_program_spec(
            s,
            program,
        ) == Err::<MachineState, Chip8Error>(Chip8Error::InterpreterMemoryIsUninitialized),
{
}

} // verus!
