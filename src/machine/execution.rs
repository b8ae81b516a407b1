//! The execution of each instruction on a [`Chip8`].
use vstd::prelude::*;

use super::Chip8;
use crate::error::Chip8Error;
use crate::instruction::Instruction;
use crate::memory::MEMORY_SIZE;
use crate::screen::{pixel_index, SCREEN_SIZE};
use crate::semantics::{
    draw_spec, drawn_cols, drawn_rows, sprite_bit, sprite_covers, add_immediate_spec, add_spec, await_key_input_spec, binary_coded_spec, call_spec, carried_out,
    clear_spec, dump_registers_spec, left_shift_spec, load_registers_spec, return_spec,
    right_shift_spec, skip_if, skip_if_key_not_pressed_spec, skip_if_key_pressed_spec,
    subtract_spec, vy_minus_vx_spec, with_pc, with_reg, wrap16,
};
use crate::state::{MachineState, FLAG_REGISTER};
use crate::{HEIGHT, WIDTH};

verus! {

/// Relies on `rand::Rng::gen_range` over `rand::thread_rng()`: a byte drawn
/// from the thread-local generator. The range `0..=255` is not empty, so
/// `gen_range` does not panic on it; `thread_rng` panics only when the
/// operating system cannot seed it. Nothing is promised of the value.
#[verifier::external_body]
pub(crate) fn random_byte() -> (r: u8) {
    rand::Rng::gen_range(&mut rand::thread_rng(), 0..=255u8)
}

/// `v` plus 2, modulo 2^16.
fn plus_two(v: u16) -> (r: u16)
    ensures
        r == wrap16(v + 2),
{
    ((v as u32 + 2) % 0x10000) as u16
}

/// Whether the sprite flips pixel `p` at one of its first `k` bits, counted
/// row by row with eight bits to a row.
spec fn covered_before(mem: Seq<u8>, i: int, x0: int, y0: int, n: int, p: int, k: int) -> bool {
    &&& sprite_covers(mem, i, x0, y0, n, p % 64, p / 64)
    &&& (p / 64 - y0) * 8 + (p % 64 - x0) < k
}

/// Two bit counts under which the sprite flips the same pixels find the
/// same collisions.
proof fn lemma_same_coverage(
    mem: Seq<u8>,
    i: int,
    x0: int,
    y0: int,
    n: int,
    screen: Seq<bool>,
    k1: int,
    k2: int,
)
    requires
        forall|p: int|
            0 <= p < SCREEN_SIZE ==> #[trigger] covered_before(mem, i, x0, y0, n, p, k1)
                == covered_before(mem, i, x0, y0, n, p, k2),
    ensures
        (exists|p: int|
            0 <= p < SCREEN_SIZE && #[trigger] covered_before(mem, i, x0, y0, n, p, k1)
                && screen[p]) == (exists|p: int|
            0 <= p < SCREEN_SIZE && #[trigger] covered_before(mem, i, x0, y0, n, p, k2)
                && screen[p]),
{
    if exists|p: int|
        0 <= p < SCREEN_SIZE && #[trigger] covered_before(mem, i, x0, y0, n, p, k1) && screen[p] {
        let w = choose|p: int|
            0 <= p < SCREEN_SIZE && #[trigger] covered_before(mem, i, x0, y0, n, p, k1)
                && screen[p];
        assert(covered_before(mem, i, x0, y0, n, w, k2));
    }
    if exists|p: int|
        0 <= p < SCREEN_SIZE && #[trigger] covered_before(mem, i, x0, y0, n, p, k2) && screen[p] {
        let w = choose|p: int|
            0 <= p < SCREEN_SIZE && #[trigger] covered_before(mem, i, x0, y0, n, p, k2)
                && screen[p];
        assert(covered_before(mem, i, x0, y0, n, w, k1));
    }
}

/// Column and row of a pixel index, and back.
proof fn lemma_pixel_coords(p: int)
    requires
        0 <= p < SCREEN_SIZE,
    ensures
        p == pixel_index(p % 64, p / 64),
        0 <= p % 64 < WIDTH,
        0 <= p / 64 < HEIGHT,
{
}

/// The pixel index of column `x` and row `y` gives back `x` and `y`.
proof fn lemma_index_coords(x: int, y: int)
    requires
        0 <= x < WIDTH,
        0 <= y < HEIGHT,
    ensures
        0 <= pixel_index(x, y) < SCREEN_SIZE,
        pixel_index(x, y) % 64 == x,
        pixel_index(x, y) / 64 == y,
{
}

impl Chip8 {
    /// Sets register `x` to `v`.
    fn set_register(&mut self, x: u8, v: u8)
        requires
            old(self)@.wf(),
            x < 16,
        ensures
            final(self)@ == with_reg(old(self)@, x as int, v),
            final(self)@.wf(),
    {
        self.registers.set(x as usize, v);
    }

    /// Skips the next instruction when `c` holds.
    fn skip_if(&mut self, c: bool)
        requires
            old(self)@.wf(),
        ensures
            final(self)@ == skip_if(old(self)@, c),
            final(self)@.wf(),
    {
        if c {
            self.program_counter = plus_two(self.program_counter);
        }
    }

    /// `00E0`: turns every pixel off.
    pub fn instruction_clear(&mut self)
        requires
            old(self)@.wf(),
        ensures
            final(self)@ == clear_spec(old(self)@),
            final(self)@.wf(),
    {
        self.screen.clear();
        self.frame_pending = true;
    }

    /// `00EE`: returns from a subroutine by popping the program counter.
    pub fn instruction_return(&mut self) -> (r: Result<(), Chip8Error>)
        requires
            old(self)@.wf(),
        ensures
            carried_out(return_spec(old(self)@), old(self)@, r, final(self)@),
            final(self)@.wf(),
    {
        let w = self.pop()?;
        self.program_counter = w;
        Ok(())
    }

    /// `1NNN`: continues at `nnn`.
    pub fn instruction_jump(&mut self, nnn: u16)
        requires
            old(self)@.wf(),
        ensures
            final(self)@ == with_pc(old(self)@, nnn),
            final(self)@.wf(),
    {
        self.program_counter = nnn;
    }

    /// `2NNN`: pushes the program counter and continues at `nnn`.
    pub fn instruction_call(&mut self, nnn: u16) -> (r: Result<(), Chip8Error>)
        requires
            old(self)@.wf(),
        ensures
            carried_out(call_spec(old(self)@, nnn), old(self)@, r, final(self)@),
            final(self)@.wf(),
    {
        let pc = self.program_counter;
        self.push(pc)?;
        self.program_counter = nnn;
        Ok(())
    }

    /// `3XNN`: skips the next instruction if VX == NN.
    pub fn instruction_skip_if_register_equals(&mut self, vx: u8, nn: u8)
        requires
            old(self)@.wf(),
            vx < 16,
        ensures
            final(self)@ == skip_if(old(self)@, old(self)@.reg(vx as int) == nn),
            final(self)@.wf(),
    {
        let c = self.registers[vx as usize] == nn;
        self.skip_if(c);
    }

    /// `4XNN`: skips the next instruction if VX != NN.
    pub fn instruction_skip_if_register_not_equals(&mut self, vx: u8, nn: u8)
        requires
            old(self)@.wf(),
            vx < 16,
        ensures
            final(self)@ == skip_if(old(self)@, old(self)@.reg(vx as int) != nn),
            final(self)@.wf(),
    {
        let c = self.registers[vx as usize] != nn;
        self.skip_if(c);
    }

    /// `5XY0`: skips the next instruction if VX == VY.
    pub fn instruction_skip_if_register_vx_equals_vy(&mut self, vx: u8, vy: u8)
        requires
            old(self)@.wf(),
            vx < 16,
            vy < 16,
        ensures
            final(self)@ == skip_if(
                old(self)@,
                old(self)@.reg(vx as int) == old(self)@.reg(vy as int),
            ),
            final(self)@.wf(),
    {
        let c = self.registers[vx as usize] == self.registers[vy as usize];
        self.skip_if(c);
    }

    /// `6XNN`: VX := NN.
    pub fn instruction_set_immediate(&mut self, vx: u8, nn: u8)
        requires
            old(self)@.wf(),
            vx < 16,
        ensures
            final(self)@ == with_reg(old(self)@, vx as int, nn),
            final(self)@.wf(),
    {
        self.set_register(vx, nn);
    }

    /// `7XNN`: VX := VX + NN modulo 256; VF := 1 on overflow, else 0.
    pub fn instruction_add_immediate(&mut self, vx: u8, nn: u8)
        requires
            old(self)@.wf(),
            vx < 16,
        ensures
            final(self)@ == add_immediate_spec(old(self)@, vx as int, nn),
            final(self)@.wf(),
    {
        let sum: u16 = self.registers[vx as usize] as u16 + nn as u16;
        let overflow_occurred = sum > 255;
        self.set_register(vx, (sum % 256) as u8);
        self.set_register(FLAG_REGISTER as u8, if overflow_occurred { 1 } else { 0 });
    }

    /// `8XY0`: VX := VY.
    pub fn instruction_copy(&mut self, vx: u8, vy: u8)
        requires
            old(self)@.wf(),
            vx < 16,
            vy < 16,
        ensures
            final(self)@ == with_reg(old(self)@, vx as int, old(self)@.reg(vy as int)),
            final(self)@.wf(),
    {
        let v = self.registers[vy as usize];
        self.set_register(vx, v);
    }

    /// `8XY1`: VX := VX | VY.
    pub fn instruction_bitwise_or(&mut self, vx: u8, vy: u8)
        requires
            old(self)@.wf(),
            vx < 16,
            vy < 16,
        ensures
            final(self)@ == with_reg(
                old(self)@,
                vx as int,
                old(self)@.reg(vx as int) | old(self)@.reg(vy as int),
            ),
            final(self)@.wf(),
    {
        let v = self.registers[vx as usize] | self.registers[vy as usize];
        self.set_register(vx, v);
    }

    /// `8XY2`: VX := VX & VY.
    pub fn instruction_bitwise_and(&mut self, vx: u8, vy: u8)
        requires
            old(self)@.wf(),
            vx < 16,
            vy < 16,
        ensures
            final(self)@ == with_reg(
                old(self)@,
                vx as int,
                old(self)@.reg(vx as int) & old(self)@.reg(vy as int),
            ),
            final(self)@.wf(),
    {
        let v = self.registers[vx as usize] & self.registers[vy as usize];
        self.set_register(vx, v);
    }

    /// `8XY3`: VX := VX ^ VY.
    pub fn instruction_bitwise_xor(&mut self, vx: u8, vy: u8)
        requires
            old(self)@.wf(),
            vx < 16,
            vy < 16,
        ensures
            final(self)@ == with_reg(
                old(self)@,
                vx as int,
                old(self)@.reg(vx as int) ^ old(self)@.reg(vy as int),
            ),
            final(self)@.wf(),
    {
        let v = self.registers[vx as usize] ^ self.registers[vy as usize];
        self.set_register(vx, v);
    }

    /// `8XY4`: VX := VX + VY modulo 256; VF := 1 on overflow, else 0.
    pub fn instruction_add(&mut self, vx: u8, vy: u8)
        requires
            old(self)@.wf(),
            vx < 16,
            vy < 16,
        ensures
            final(self)@ == add_spec(old(self)@, vx as int, vy as int),
            final(self)@.wf(),
    {
        let sum: u16 = self.registers[vx as usize] as u16 + self.registers[vy as usize] as u16;
        let overflow_occurred = sum > 255;
        self.set_register(vx, (sum % 256) as u8);
        self.set_register(FLAG_REGISTER as u8, if overflow_occurred { 1 } else { 0 });
    }

    /// `8XY5`: VX := VX - VY modulo 256; VF := 1 when it underflowed
    /// (VX < VY), else 0.
    pub fn instruction_subtract(&mut self, vx: u8, vy: u8)
        requires
            old(self)@.wf(),
            vx < 16,
            vy < 16,
        ensures
            final(self)@ == subtract_spec(old(self)@, vx as int, vy as int),
            final(self)@.wf(),
    {
        let a = self.registers[vx as usize];
        let b = self.registers[vy as usize];
        let underflow_occurred = a < b;
        let diff: u16 = ((a as u16 + 256) - b as u16) % 256;
        self.set_register(vx, diff as u8);
        self.set_register(FLAG_REGISTER as u8, if underflow_occurred { 1 } else { 0 });
    }

    /// `8XY6`: VF := the low bit of VX; then VX := VX >> 1.
    pub fn instruction_right_shift(&mut self, vx: u8)
        requires
            old(self)@.wf(),
            vx < 16,
        ensures
            final(self)@ == right_shift_spec(old(self)@, vx as int),
            final(self)@.wf(),
    {
        let v = self.registers[vx as usize];
        let least_significant = v & 1;
        assert(least_significant == v % 2) by (bit_vector)
            requires least_significant == v & 1;
        self.set_register(FLAG_REGISTER as u8, least_significant);
        let w = self.registers[vx as usize];
        let shifted = w >> 1u8;
        assert(shifted == w / 2) by (bit_vector)
            requires shifted == w >> 1u8;
        self.set_register(vx, shifted);
    }

    /// `8XY7`: VX := VY - VX modulo 256; VF := 1 when it underflowed
    /// (VY < VX), else 0.
    pub fn instruction_set_vx_to_vy_minus_vx(&mut self, vx: u8, vy: u8)
        requires
            old(self)@.wf(),
            vx < 16,
            vy < 16,
        ensures
            final(self)@ == vy_minus_vx_spec(old(self)@, vx as int, vy as int),
            final(self)@.wf(),
    {
        let a = self.registers[vx as usize];
        let b = self.registers[vy as usize];
        let underflow_occurred = b < a;
        let diff: u16 = ((b as u16 + 256) - a as u16) % 256;
        self.set_register(vx, diff as u8);
        self.set_register(FLAG_REGISTER as u8, if underflow_occurred { 1 } else { 0 });
    }

    /// `8XYE`: VF := VX & 0x80, the high bit left in place; then
    /// VX := VX << 1, truncated to 8 bits.
    pub fn instruction_left_shift(&mut self, vx: u8)
        requires
            old(self)@.wf(),
            vx < 16,
        ensures
            final(self)@ == left_shift_spec(old(self)@, vx as int),
            final(self)@.wf(),
    {
        let v = self.registers[vx as usize];
        let most_significant = v & 0x80u8;
        assert(most_significant == if v >= 0x80 { 0x80u8 } else { 0u8 }) by (bit_vector)
            requires most_significant == v & 0x80u8;
        self.set_register(FLAG_REGISTER as u8, most_significant);
        let w = self.registers[vx as usize];
        let shifted = ((w as u16 * 2) % 256) as u8;
        self.set_register(vx, shifted);
    }

    /// `9XY0`: skips the next instruction if VX != VY.
    pub fn instruction_skip_if_register_vx_not_equals_vy(&mut self, vx: u8, vy: u8)
        requires
            old(self)@.wf(),
            vx < 16,
            vy < 16,
        ensures
            final(self)@ == skip_if(
                old(self)@,
                old(self)@.reg(vx as int) != old(self)@.reg(vy as int),
            ),
            final(self)@.wf(),
    {
        let c = self.registers[vx as usize] != self.registers[vy as usize];
        self.skip_if(c);
    }

    /// `ANNN`: I := NNN.
    pub fn instruction_set_index_register(&mut self, nnn: u16)
        requires
            old(self)@.wf(),
        ensures
            final(self)@ == (MachineState { index_register: nnn, ..old(self)@ }),
            final(self)@.wf(),
    {
        self.index_register = nnn;
    }

    /// `BNNN`: continues at V0 + NNN, modulo 2^16.
    pub fn instruction_jump_with_pc_offset(&mut self, nnn: u16)
        requires
            old(self)@.wf(),
        ensures
            final(self)@ == with_pc(old(self)@, wrap16(old(self)@.reg(0) + nnn)),
            final(self)@.wf(),
    {
        let target = ((self.registers[0] as u32 + nnn as u32) % 0x10000) as u16;
        self.program_counter = target;
    }

    /// `CXNN` with `random` as the drawn byte: VX := `random` & NN.
    pub fn instruction_random_masked(&mut self, vx: u8, nn: u8, random: u8)
        requires
            old(self)@.wf(),
            vx < 16,
        ensures
            final(self)@ == with_reg(old(self)@, vx as int, random & nn),
            final(self)@.wf(),
    {
        self.set_register(vx, random & nn);
    }

    /// `CXNN`: VX := a random byte & NN.
    pub fn instruction_random(&mut self, vx: u8, nn: u8)
        requires
            old(self)@.wf(),
            vx < 16,
        ensures
            exists|b: u8| final(self)@ == with_reg(old(self)@, vx as int, b & nn),
            final(self)@.wf(),
    {
        let b = random_byte();
        self.instruction_random_masked(vx, nn, b);
    }

    /// `DXYN`: VF := 0; XORs the N-row sprite stored at I onto the display
    /// with its top left corner at (VX mod 64, VY mod 32), clipping at the
    /// right and bottom edges; VF := 1 when a lit pixel was turned off. Fails,
    /// changing nothing, when a sprite row that lands on the display lies
    /// outside memory.
    pub fn instruction_draw(&mut self, vx: u8, vy: u8, n: u8) -> (r: Result<(), Chip8Error>)
        requires
            old(self)@.wf(),
            vx < 16,
            vy < 16,
            n < 16,
        ensures
            carried_out(
                draw_spec(old(self)@, vx as int, vy as int, n as int),
                old(self)@,
                r,
                final(self)@,
            ),
            final(self)@.wf(),
    {
        // VF is cleared before the origin is read.
        let x_reg = if vx as usize == FLAG_REGISTER { 0 } else { self.registers[vx as usize] };
        let y_reg = if vy as usize == FLAG_REGISTER { 0 } else { self.registers[vy as usize] };
        let x_start: u8 = x_reg % (WIDTH as u8);
        let y_start: u8 = y_reg % (HEIGHT as u8);
        let rows: u8 = if n as usize <= HEIGHT - y_start as usize {
            n
        } else {
            HEIGHT as u8 - y_start
        };
        let cols: u8 = if 8 <= WIDTH - x_start as usize {
            8
        } else {
            WIDTH as u8 - x_start
        };
        let base = self.index_register as usize;
        if base + rows as usize > MEMORY_SIZE {
            return Err(Chip8Error::AddressOutOfRange { address: base });
        }
        let ghost s0 = self@;
        let ghost x0 = x_start as int;
        let ghost y0 = y_start as int;
        self.set_register(FLAG_REGISTER as u8, 0);
        let ghost cleared = self@;
        assert(rows == drawn_rows(y0, n as int) && cols == drawn_cols(x0));
        let mut collision = false;
        let mut row: u8 = 0;
        while row < rows
            invariant
                s0.wf(),
                n < 16,
                rows == drawn_rows(y0, n as int),
                cols == drawn_cols(x0),
                x0 == x_start,
                y0 == y_start,
                x0 < WIDTH,
                y0 < HEIGHT,
                base == s0.index_register,
                base + rows <= MEMORY_SIZE,
                row <= rows,
                cleared == with_reg(s0, FLAG_REGISTER as int, 0),
                self@ == (MachineState { screen: self@.screen, ..cleared }),
                self@.screen.len() == SCREEN_SIZE,
                forall|p: int|
                    0 <= p < SCREEN_SIZE ==> #[trigger] self@.screen[p] == (s0.screen[p]
                        != covered_before(s0.memory, base as int, x0, y0, n as int, p, row * 8)),
                collision == exists|p: int|
                    0 <= p < SCREEN_SIZE && #[trigger] covered_before(
                        s0.memory,
                        base as int,
                        x0,
                        y0,
                        n as int,
                        p,
                        row * 8,
                    ) && s0.screen[p],
            decreases rows - row,
        {
            let sprite_byte = self.memory.byte(base + row as usize);
            let mut col: u8 = 0;
            proof {
                lemma_same_coverage(
                    s0.memory,
                    base as int,
                    x0,
                    y0,
                    n as int,
                    s0.screen,
                    row * 8,
                    row * 8 + col,
                );
            }
            while col < cols
                invariant
                    s0.wf(),
                    n < 16,
                    rows == drawn_rows(y0, n as int),
                    cols == drawn_cols(x0),
                    x0 == x_start,
                    y0 == y_start,
                    x0 < WIDTH,
                    y0 < HEIGHT,
                    base == s0.index_register,
                    base + rows <= MEMORY_SIZE,
                    row < rows,
                    col <= cols,
                    sprite_byte == s0.memory[base + row],
                    cleared == with_reg(s0, FLAG_REGISTER as int, 0),
                self@ == (MachineState { screen: self@.screen, ..cleared }),
                    self@.screen.len() == SCREEN_SIZE,
                    forall|p: int|
                        0 <= p < SCREEN_SIZE ==> #[trigger] self@.screen[p] == (s0.screen[p]
                            != covered_before(
                            s0.memory,
                            base as int,
                            x0,
                            y0,
                            n as int,
                            p,
                            row * 8 + col,
                        )),
                    collision == exists|p: int|
                        0 <= p < SCREEN_SIZE && #[trigger] covered_before(
                            s0.memory,
                            base as int,
                            x0,
                            y0,
                            n as int,
                            p,
                            row * 8 + col,
                        ) && s0.screen[p],
                decreases cols - col,
            {
                let ghost k = row * 8 + col;
                let ghost q = pixel_index(x0 + col, y0 + row);
                proof {
                    lemma_index_coords(x0 + col, y0 + row);
                }
                let shift: u8 = 7 - col;
                let needs_invert = ((sprite_byte >> shift) & 1u8) == 1u8;
                assert(needs_invert == sprite_bit(s0.memory[base + row], col as int));
                assert(sprite_covers(s0.memory, base as int, x0, y0, n as int, q % 64, q / 64)
                    == needs_invert);
                assert forall|p: int| 0 <= p < SCREEN_SIZE implies #[trigger] covered_before(
                    s0.memory,
                    base as int,
                    x0,
                    y0,
                    n as int,
                    p,
                    k + 1,
                ) == (covered_before(s0.memory, base as int, x0, y0, n as int, p, k) || (p == q
                    && needs_invert)) by {
                    lemma_pixel_coords(p);
                    if (p / 64 - y0) * 8 + (p % 64 - x0) == k && sprite_covers(
                        s0.memory,
                        base as int,
                        x0,
                        y0,
                        n as int,
                        p % 64,
                        p / 64,
                    ) {
                        assert(p / 64 - y0 == row && p % 64 - x0 == col);
                    }
                };
                assert(!covered_before(s0.memory, base as int, x0, y0, n as int, q, k));
                if needs_invert {
                    let new_state = self.screen.invert(x_start + col, y_start + row);
                    if !new_state {
                        collision = true;
                    }
                }
                let ghost old_collision = collision;
                col = col + 1;
                assert forall|p: int| 0 <= p < SCREEN_SIZE implies #[trigger] self@.screen[p] == (
                s0.screen[p] != covered_before(
                    s0.memory,
                    base as int,
                    x0,
                    y0,
                    n as int,
                    p,
                    row * 8 + col,
                )) by {
                    assert(row * 8 + col == k + 1);
                };
                assert(collision == exists|p: int|
                    0 <= p < SCREEN_SIZE && #[trigger] covered_before(
                        s0.memory,
                        base as int,
                        x0,
                        y0,
                        n as int,
                        p,
                        row * 8 + col,
                    ) && s0.screen[p]) by {
                    assert(row * 8 + col == k + 1);
                    if collision {
                        if !(needs_invert && s0.screen[q]) {
                            let w = choose|p: int|
                                0 <= p < SCREEN_SIZE && #[trigger] covered_before(
                                    s0.memory,
                                    base as int,
                                    x0,
                                    y0,
                                    n as int,
                                    p,
                                    k,
                                ) && s0.screen[p];
                            assert(covered_before(s0.memory, base as int, x0, y0, n as int, w, k + 1));
                        } else {
                            assert(covered_before(s0.memory, base as int, x0, y0, n as int, q, k + 1));
                        }
                    } else {
                        assert forall|p: int|
                            0 <= p < SCREEN_SIZE && #[trigger] covered_before(
                                s0.memory,
                                base as int,
                                x0,
                                y0,
                                n as int,
                                p,
                                k + 1,
                            ) implies !s0.screen[p] by {
                            if p != q {
                                assert(covered_before(s0.memory, base as int, x0, y0, n as int, p, k));
                            }
                        };
                    }
                };
            }
            proof {
                assert forall|p: int| 0 <= p < SCREEN_SIZE implies #[trigger] covered_before(
                    s0.memory,
                    base as int,
                    x0,
                    y0,
                    n as int,
                    p,
                    row * 8 + cols,
                ) == covered_before(s0.memory, base as int, x0, y0, n as int, p, (row + 1) * 8) by {
                    lemma_pixel_coords(p);
                };
                lemma_same_coverage(
                    s0.memory,
                    base as int,
                    x0,
                    y0,
                    n as int,
                    s0.screen,
                    row * 8 + cols,
                    (row + 1) * 8,
                );
            }
            row = row + 1;
        }
        proof {
            assert forall|p: int| 0 <= p < SCREEN_SIZE implies #[trigger] covered_before(
                s0.memory,
                base as int,
                x0,
                y0,
                n as int,
                p,
                rows * 8,
            ) == sprite_covers(s0.memory, base as int, x0, y0, n as int, p % 64, p / 64) by {
                lemma_pixel_coords(p);
            };
        }
        let ghost covers = |p: int|
            sprite_covers(s0.memory, base as int, x0, y0, n as int, p % 64, p / 64);
        assert(collision == exists|p: int| 0 <= p < SCREEN_SIZE && covers(p) && s0.screen[p]) by {
            if collision {
                let w = choose|p: int|
                    0 <= p < SCREEN_SIZE && #[trigger] covered_before(
                        s0.memory,
                        base as int,
                        x0,
                        y0,
                        n as int,
                        p,
                        rows * 8,
                    ) && s0.screen[p];
                assert(covers(w));
            }
            if exists|p: int| 0 <= p < SCREEN_SIZE && covers(p) && s0.screen[p] {
                let w = choose|p: int| 0 <= p < SCREEN_SIZE && covers(p) && s0.screen[p];
                assert(covered_before(s0.memory, base as int, x0, y0, n as int, w, rows * 8));
            }
        };
        self.set_register(FLAG_REGISTER as u8, if collision { 1 } else { 0 });
        self.frame_pending = true;
        proof {
            let spec_state = draw_spec(s0, vx as int, vy as int, n as int)->Ok_0;
            assert(self@.screen =~= spec_state.screen);
            assert(self@.registers =~= spec_state.registers);
        }
        Ok(())
    }

    /// `EX9E`: when the held key equals VX, skips the next instruction and
    /// releases the key.
    pub fn instruction_skip_if_key_pressed(&mut self, vx: u8)
        requires
            old(self)@.wf(),
            vx < 16,
        ensures
            final(self)@ == skip_if_key_pressed_spec(old(self)@, vx as int),
            final(self)@.wf(),
    {
        if let Some(keycode) = self.key_pressed {
            if keycode == self.registers[vx as usize] {
                self.program_counter = plus_two(self.program_counter);
                self.key_pressed = None;
            }
        }
    }

    /// `EXA1`: skips the next instruction unless a key is held and differs
    /// from VX.
    pub fn instruction_skip_if_key_not_pressed(&mut self, vx: u8)
        requires
            old(self)@.wf(),
            vx < 16,
        ensures
            final(self)@ == skip_if_key_not_pressed_spec(old(self)@, vx as int),
            final(self)@.wf(),
    {
        if let Some(keycode) = self.key_pressed {
            if keycode != self.registers[vx as usize] {
                return;
            }
        }
        self.program_counter = plus_two(self.program_counter);
    }

    /// `FX07`: VX := the delay countdown.
    pub fn instruction_set_vx_to_delay_timer(&mut self, vx: u8)
        requires
            old(self)@.wf(),
            vx < 16,
        ensures
            final(self)@ == with_reg(old(self)@, vx as int, old(self)@.delay_timer),
            final(self)@.wf(),
    {
        let v = self.delay_timer.0;
        self.set_register(vx, v);
    }

    /// `FX0A`: with a key held, VX := the key and the key is released;
    /// otherwise the program counter steps back so that this instruction
    /// runs again on the next cycle.
    pub fn instruction_await_key_input(&mut self, vx: u8)
        requires
            old(self)@.wf(),
            vx < 16,
        ensures
            final(self)@ == await_key_input_spec(old(self)@, vx as int),
            final(self)@.wf(),
    {
        match self.key_pressed {
            Some(k) => {
                self.set_register(vx, k);
                self.key_pressed = None;
            },
            None => {
                self.program_counter = ((self.program_counter as u32 + 0x10000 - 2) % 0x10000) as u16;
            },
        }
    }

    /// `FX15`: the delay countdown := VX.
    pub fn instruction_set_delay_timer(&mut self, vx: u8)
        requires
            old(self)@.wf(),
            vx < 16,
        ensures
            final(self)@ == (MachineState { delay_timer: old(self)@.reg(vx as int), ..old(self)@ }),
            final(self)@.wf(),
    {
        self.delay_timer.0 = self.registers[vx as usize];
    }

    /// `FX18`: the sound countdown := VX.
    pub fn instruction_set_sound_timer(&mut self, vx: u8)
        requires
            old(self)@.wf(),
            vx < 16,
        ensures
            final(self)@ == (MachineState { sound_timer: old(self)@.reg(vx as int), ..old(self)@ }),
            final(self)@.wf(),
    {
        self.sound_timer.0 = self.registers[vx as usize];
    }

    /// `FX1E`: I := I + VX modulo 2^16; VF is left alone.
    pub fn instruction_add_to_index(&mut self, vx: u8)
        requires
            old(self)@.wf(),
            vx < 16,
        ensures
            final(self)@ == (MachineState {
                index_register: wrap16(old(self)@.index_register + old(self)@.reg(vx as int)),
                ..old(self)@
            }),
            final(self)@.wf(),
    {
        self.index_register = ((self.index_register as u32 + self.registers[vx as usize] as u32)
            % 0x10000) as u16;
    }

    /// `FX29`: I := VX, taken directly as the address of the glyph.
    pub fn instruction_set_index_to_font_character(&mut self, vx: u8)
        requires
            old(self)@.wf(),
            vx < 16,
        ensures
            final(self)@ == (MachineState {
                index_register: old(self)@.reg(vx as int) as u16,
                ..old(self)@
            }),
            final(self)@.wf(),
    {
        self.index_register = self.registers[vx as usize] as u16;
    }

    /// `FX33`: writes the hundreds, tens and ones digits of VX at I, I+1 and
    /// I+2, or fails when those bytes leave memory.
    pub fn instruction_set_index_to_binary_coded_vx(&mut self, vx: u8) -> (r: Result<(), Chip8Error>)
        requires
            old(self)@.wf(),
            vx < 16,
        ensures
            carried_out(binary_coded_spec(old(self)@, vx as int), old(self)@, r, final(self)@),
            final(self)@.wf(),
    {
        let i = self.index_register as usize;
        if i + 3 > MEMORY_SIZE {
            return Err(Chip8Error::AddressOutOfRange { address: i });
        }
        let v = self.registers[vx as usize];
        self.memory.set_byte(i, v / 100);
        self.memory.set_byte(i + 1, (v / 10) % 10);
        self.memory.set_byte(i + 2, v % 10);
        Ok(())
    }

    /// `FX55`: writes V0 to VX at I to I+X, or fails when those bytes leave
    /// memory.
    pub fn instruction_dump_registers(&mut self, vx: u8) -> (r: Result<(), Chip8Error>)
        requires
            old(self)@.wf(),
            vx < 16,
        ensures
            carried_out(dump_registers_spec(old(self)@, vx as int), old(self)@, r, final(self)@),
            final(self)@.wf(),
    {
        let base = self.index_register as usize;
        if base + vx as usize + 1 > MEMORY_SIZE {
            return Err(Chip8Error::AddressOutOfRange { address: base });
        }
        let ghost before = self@;
        let mut i: usize = 0;
        while i <= vx as usize
            invariant
                before.wf(),
                vx < 16,
                base == before.index_register,
                base + vx + 1 <= MEMORY_SIZE,
                i <= vx + 1,
                self@ == (MachineState { memory: self@.memory, ..before }),
                self@.memory.len() == MEMORY_SIZE,
                forall|a: int|
                    0 <= a < MEMORY_SIZE ==> #[trigger] self@.memory[a] == if base <= a < base + i {
                        before.registers[a - base]
                    } else {
                        before.memory[a]
                    },
            decreases vx + 1 - i,
        {
            let v = self.registers[i];
            self.memory.set_byte(base + i, v);
            i = i + 1;
        }
        assert(self@.memory =~= dump_registers_spec(before, vx as int)->Ok_0.memory);
        Ok(())
    }

    /// `FX65`: reads V0 to VX from I to I+X, or fails when those bytes leave
    /// memory.
    pub fn instruction_load_registers(&mut self, vx: u8) -> (r: Result<(), Chip8Error>)
        requires
            old(self)@.wf(),
            vx < 16,
        ensures
            carried_out(load_registers_spec(old(self)@, vx as int), old(self)@, r, final(self)@),
            final(self)@.wf(),
    {
        let base = self.index_register as usize;
        if base + vx as usize + 1 > MEMORY_SIZE {
            return Err(Chip8Error::AddressOutOfRange { address: base });
        }
        let ghost before = self@;
        let mut i: usize = 0;
        while i <= vx as usize
            invariant
                before.wf(),
                vx < 16,
                base == before.index_register,
                base + vx + 1 <= MEMORY_SIZE,
                i <= vx + 1,
                self@ == (MachineState { registers: self@.registers, ..before }),
                self@.registers.len() == 16,
                forall|r: int|
                    0 <= r < 16 ==> #[trigger] self@.registers[r] == if r < i {
                        before.memory[base + r]
                    } else {
                        before.registers[r]
                    },
            decreases vx + 1 - i,
        {
            let v = self.memory.byte(base + i);
            self.set_register(i as u8, v);
            i = i + 1;
        }
        assert(self@.registers =~= load_registers_spec(before, vx as int)->Ok_0.registers);
        Ok(())
    }

    /// The stand-in for no instruction: it cannot be executed.
    pub fn instruction_unknown(&mut self) -> (r: Result<(), Chip8Error>)
        ensures
            r == Err::<(), Chip8Error>(
                Chip8Error::UnimplementedInstruction { instruction: Instruction::Unknown },
            ),
            *final(self) == *old(self),
    {
        Err(Chip8Error::UnimplementedInstruction { instruction: Instruction::Unknown })
    }
}

} // verus!
