//! The machine: its state, lifecycle, call stack and fetch-decode-execute cycle.
use vstd::prelude::*;

use crate::error::Chip8Error;
use crate::memory::{word_at, Memory, MEMORY_SIZE, PROGRAM_OFFSET};
use crate::screen::Screen;
use crate::instruction::{decode, Instruction};
use crate::semantics::{carried_out, cycle_spec, execute_spec, pop_spec, push_spec, with_pc, wrap16};
use crate::state::{
    created_state, initialized_state, load_program_spec, EmulatorState, MachineState,
    REGISTER_COUNT, STACK_BOTTOM, STACK_TOP,
};
use crate::timer::{DelayTimer, SoundTimer};

mod execution;
pub mod host;

verus! {

/// A CHIP-8 machine: memory, display, registers, stack, timers and keypad.
///
/// Create it with [`Chip8::new`], then call [`Chip8::initialize`], then
/// [`Chip8::load_program`], then [`Chip8::cycle`] repeatedly.
#[derive(Debug)]
pub struct Chip8 {
    memory: Memory,
    screen: Screen,
    registers: Vec<u8>,
    index_register: u16,
    program_counter: u16,
    stack_pointer: u16,
    /// The delay countdown.
    pub delay_timer: DelayTimer,
    /// The sound countdown.
    pub sound_timer: SoundTimer,
    emulator_state: EmulatorState,
    /// The key that the host last reported as held, if any.
    pub key_pressed: Option<u8>,
    frame_pending: bool,
}

impl View for Chip8 {
    type V = MachineState;

    closed spec fn view(&self) -> MachineState {
        MachineState {
            memory: self.memory@,
            screen: self.screen@,
            registers: self.registers@,
            index_register: self.index_register,
            program_counter: self.program_counter,
            stack_pointer: self.stack_pointer,
            delay_timer: self.delay_timer.0,
            sound_timer: self.sound_timer.0,
            key_pressed: self.key_pressed,
            emulator_state: self.emulator_state,
            frame_pending: self.frame_pending,
        }
    }
}

/// A zeroed register file.
fn zeroed_registers() -> (r: Vec<u8>)
    ensures
        r@ == Seq::new(REGISTER_COUNT as nat, |i: int| 0u8),
{
    let mut r: Vec<u8> = Vec::new();
    let mut i: usize = 0;
    while i < REGISTER_COUNT
        invariant
            i <= REGISTER_COUNT,
            r@ == Seq::new(i as nat, |j: int| 0u8),
        decreases REGISTER_COUNT - i,
    {
        r.push(0);
        i = i + 1;
        assert(r@ =~= Seq::new(i as nat, |j: int| 0u8));
    }
    r
}

impl Chip8 {
    /// A machine with zeroed memory that still has to be initialized.
    pub fn new() -> (r: Chip8)
        ensures
            r@ == created_state(),
            r@.wf(),
    {
        let r = Chip8 {
            memory: Memory::new(),
            screen: Screen::new(),
            registers: zeroed_registers(),
            index_register: 0,
            program_counter: PROGRAM_OFFSET as u16,
            stack_pointer: STACK_BOTTOM,
            delay_timer: DelayTimer(0),
            sound_timer: SoundTimer(0),
            emulator_state: EmulatorState::InterpreterMemoryUninitialized,
            key_pressed: None,
            frame_pending: false,
        };
        assert(r@ == created_state());
        r
    }

    /// Resets memory, display, registers, stack, timers and keypad, loads
    /// the font, and enters the initialized state. It may be called in any
    /// state: called again, it is a deliberate reset that starts over.
    pub fn initialize(&mut self) -> (r: Result<(), Chip8Error>)
        ensures
            r is Ok,
            final(self)@ == initialized_state(),
            final(self)@.wf(),
    {
        self.memory = Memory::new();
        self.screen = Screen::new();
        self.registers = zeroed_registers();
        self.index_register = 0;
        self.program_counter = PROGRAM_OFFSET as u16;
        self.stack_pointer = STACK_BOTTOM;
        self.delay_timer = DelayTimer(0);
        self.sound_timer = SoundTimer(0);
        self.key_pressed = None;
        self.frame_pending = true;
        self.memory.load_font_set();
        self.emulator_state = EmulatorState::InterpreterMemoryInitialized;
        assert(self@ == initialized_state());
        Ok(())
    }

    /// Places `program_bytes` at the program address and zeroes every byte
    /// after it, and enters the loaded state. Fails when memory is not yet
    /// initialized, or when the image does not fit below the end of memory;
    /// on failure nothing changes. It may be called again to switch programs.
    pub fn load_program(&mut self, program_bytes: Vec<u8>) -> (r: Result<(), Chip8Error>)
        requires
            old(self)@.wf(),
        ensures
            carried_out(load_program_spec(old(self)@, program_bytes@), old(self)@, r, final(self)@),
            final(self)@.wf(),
    {
        if self.emulator_state == EmulatorState::InterpreterMemoryUninitialized {
            return Err(Chip8Error::InterpreterMemoryIsUninitialized);
        }
        if program_bytes.len() > MEMORY_SIZE - PROGRAM_OFFSET {
            return Err(Chip8Error::AddressOutOfRange { address: MEMORY_SIZE });
        }
        let ghost before = self@;
        let changed = self.emulator_state.change_states(EmulatorState::ProgramLoaded);
        assert(changed is Ok);
        let ghost loaded = self@;
        let mut address: usize = PROGRAM_OFFSET;
        let mut i: usize = 0;
        while i < program_bytes.len()
            invariant
                program_bytes@.len() <= MEMORY_SIZE - PROGRAM_OFFSET,
                i <= program_bytes@.len(),
                address == PROGRAM_OFFSET + i,
                self.memory@.len() == MEMORY_SIZE,
                self@ == (MachineState { memory: self.memory@, ..loaded }),
                forall|a: int|
                    0 <= a < MEMORY_SIZE ==> #[trigger] self.memory@[a] == if PROGRAM_OFFSET <= a
                        < address {
                        program_bytes@[a - PROGRAM_OFFSET]
                    } else {
                        before.memory[a]
                    },
            decreases program_bytes@.len() - i,
        {
            self.memory.set_byte(address, program_bytes[i]);
            address = address + 1;
            i = i + 1;
        }
        while address < MEMORY_SIZE
            invariant
                PROGRAM_OFFSET + program_bytes@.len() <= address <= MEMORY_SIZE,
                self.memory@.len() == MEMORY_SIZE,
                self@ == (MachineState { memory: self.memory@, ..loaded }),
                forall|a: int|
                    0 <= a < MEMORY_SIZE ==> #[trigger] self.memory@[a] == if a < PROGRAM_OFFSET {
                        before.memory[a]
                    } else if a < PROGRAM_OFFSET + program_bytes@.len() {
                        program_bytes@[a - PROGRAM_OFFSET]
                    } else if a < address {
                        0u8
                    } else {
                        before.memory[a]
                    },
            decreases MEMORY_SIZE - address,
        {
            self.memory.set_byte(address, 0);
            address = address + 1;
        }
        assert(self.memory@ =~= crate::state::with_program(before.memory, program_bytes@));
        Ok(())
    }

    /// Pushes `word` onto the call stack, or fails with
    /// [`Chip8Error::StackOverflow`] when all of its slots are in use.
    pub fn push(&mut self, word: u16) -> (r: Result<(), Chip8Error>)
        requires
            old(self)@.wf(),
        ensures
            carried_out(push_spec(old(self)@, word), old(self)@, r, final(self)@),
            final(self)@.wf(),
    {
        if self.stack_pointer == STACK_TOP {
            return Err(Chip8Error::StackOverflow);
        }
        self.stack_pointer = self.stack_pointer - 2;
        self.memory.set_word(self.stack_pointer as usize, word);
        Ok(())
    }

    /// Pops the most recently pushed word, or fails with
    /// [`Chip8Error::StackUnderflow`] when the stack is empty.
    pub fn pop(&mut self) -> (r: Result<u16, Chip8Error>)
        requires
            old(self)@.wf(),
        ensures
            match pop_spec(old(self)@) {
                Ok((w, t)) => r == Ok::<u16, Chip8Error>(w) && final(self)@ == t,
                Err(e) => r == Err::<u16, Chip8Error>(e) && final(self)@ == old(self)@,
            },
            final(self)@.wf(),
    {
        if self.stack_pointer == STACK_BOTTOM {
            return Err(Chip8Error::StackUnderflow);
        }
        let word = self.memory.word(self.stack_pointer as usize);
        self.stack_pointer = self.stack_pointer + 2;
        Ok(word)
    }

    /// Reads the instruction word at the program counter and moves the
    /// counter past it, or fails, changing nothing, when the word lies
    /// outside memory.
    fn fetch(&mut self) -> (r: Result<u16, Chip8Error>)
        requires
            old(self)@.wf(),
        ensures
            final(self)@.wf(),
            match r {
                Ok(w) => (old(self)@.program_counter as int)
                    + 2 <= MEMORY_SIZE && w == word_at(old(self)@.memory, old(self)@.program_counter as int)
                    && final(self)@ == with_pc(old(self)@, wrap16(old(self)@.program_counter + 2)),
                Err(e) => (old(self)@.program_counter as int) + 2 > MEMORY_SIZE
                    && e == Chip8Error::AddressOutOfRange { address: old(self)@.program_counter as usize }
                    && final(self)@ == old(self)@,
            },
    {
        let pc = self.program_counter as usize;
        if pc + 2 > MEMORY_SIZE {
            return Err(Chip8Error::AddressOutOfRange { address: pc });
        }
        let word = self.memory.word(pc);
        self.program_counter = self.program_counter + 2;
        Ok(word)
    }

    /// Decodes an instruction word; see [`Instruction::new`].
    fn decode(&self, raw: u16) -> (r: Result<Instruction, Chip8Error>)
        ensures
            r == decode(raw),
            r is Ok ==> r->Ok_0.wf(),
    {
        Instruction::new(raw)
    }

    /// Executes `instruction`, with `random` as the byte that `CXNN` draws.
    /// On an error the state is left as it was.
    pub fn execute_with_random(&mut self, instruction: Instruction, random: u8) -> (r: Result<(), Chip8Error>)
        requires
            old(self)@.wf(),
            instruction.wf(),
        ensures
            carried_out(execute_spec(old(self)@, instruction, random), old(self)@, r, final(self)@),
            final(self)@.wf(),
    {
        match instruction {
            Instruction::CallMachineCodeRoutine => {
                return Err(Chip8Error::UnimplementedInstruction { instruction });
            },
            Instruction::Clear => self.instruction_clear(),
            Instruction::Return => self.instruction_return()?,
            Instruction::Jump { nnn } => self.instruction_jump(nnn),
            Instruction::Call { nnn } => self.instruction_call(nnn)?,
            Instruction::SkipIfRegisterEquals { vx, nn } => {
                self.instruction_skip_if_register_equals(vx, nn)
            },
            Instruction::SkipIfRegisterNotEquals { vx, nn } => {
                self.instruction_skip_if_register_not_equals(vx, nn)
            },
            Instruction::SkipIfRegisterVxEqualsVy { vx, vy } => {
                self.instruction_skip_if_register_vx_equals_vy(vx, vy)
            },
            Instruction::SetImmediate { vx, nn } => self.instruction_set_immediate(vx, nn),
            Instruction::AddImmediate { vx, nn } => self.instruction_add_immediate(vx, nn),
            Instruction::Copy { vx, vy } => self.instruction_copy(vx, vy),
            Instruction::BitwiseOr { vx, vy } => self.instruction_bitwise_or(vx, vy),
            Instruction::BitwiseAnd { vx, vy } => self.instruction_bitwise_and(vx, vy),
            Instruction::BitwiseXor { vx, vy } => self.instruction_bitwise_xor(vx, vy),
            Instruction::Add { vx, vy } => self.instruction_add(vx, vy),
            Instruction::Subtract { vx, vy } => self.instruction_subtract(vx, vy),
            Instruction::RightShift { vx } => self.instruction_right_shift(vx),
            Instruction::SetVxToVyMinusVx { vx, vy } => {
                self.instruction_set_vx_to_vy_minus_vx(vx, vy)
            },
            Instruction::LeftShift { vx } => self.instruction_left_shift(vx),
            Instruction::SkipIfRegisterVxNotEqualsVy { vx, vy } => {
                self.instruction_skip_if_register_vx_not_equals_vy(vx, vy)
            },
            Instruction::SetIndexRegister { nnn } => self.instruction_set_index_register(nnn),
            Instruction::JumpWithPcOffset { nnn } => self.instruction_jump_with_pc_offset(nnn),
            Instruction::Random { vx, nn } => self.instruction_random_masked(vx, nn, random),
            Instruction::Draw { vx, vy, n } => self.instruction_draw(vx, vy, n)?,
            Instruction::SkipIfKeyPressed { vx } => self.instruction_skip_if_key_pressed(vx),
            Instruction::SkipIfKeyNotPressed { vx } => self.instruction_skip_if_key_not_pressed(vx),
            Instruction::SetVxToDelayTimer { vx } => self.instruction_set_vx_to_delay_timer(vx),
            Instruction::AwaitKeyInput { vx } => self.instruction_await_key_input(vx),
            Instruction::SetDelayTimer { vx } => self.instruction_set_delay_timer(vx),
            Instruction::SetSoundTimer { vx } => self.instruction_set_sound_timer(vx),
            Instruction::AddToIndex { vx } => self.instruction_add_to_index(vx),
            Instruction::SetIndexToFontCharacter { vx } => {
                self.instruction_set_index_to_font_character(vx)
            },
            Instruction::SetIndexToBinaryCodedVx { vx } => {
                self.instruction_set_index_to_binary_coded_vx(vx)?
            },
            Instruction::DumpRegisters { vx } => self.instruction_dump_registers(vx)?,
            Instruction::LoadRegisters { vx } => self.instruction_load_registers(vx)?,
            Instruction::Unknown => self.instruction_unknown()?,
        }
        Ok(())
    }

    /// Executes `instruction`; `CXNN` draws its byte from the thread-local
    /// random generator. On an error the state is left as it was.
    pub fn execute(&mut self, instruction: Instruction) -> (r: Result<(), Chip8Error>)
        requires
            old(self)@.wf(),
            instruction.wf(),
        ensures
            exists|b: u8|
                carried_out(#[trigger] execute_spec(old(self)@, instruction, b), old(self)@, r, final(self)@),
            !(instruction is Random) ==> carried_out(
                execute_spec(old(self)@, instruction, 0),
                old(self)@,
                r,
                final(self)@,
            ),
            final(self)@.wf(),
    {
        let random = match instruction {
            Instruction::Random { .. } => execution::random_byte(),
            _ => 0,
        };
        self.execute_with_random(instruction, random)
    }

    /// One fetch-decode-execute step; `CXNN` draws its byte from the
    /// thread-local random generator. Fails with
    /// [`Chip8Error::ProgramNotLoaded`] unless a program is loaded; a word
    /// that does not decode, or an instruction that fails, aborts the step
    /// with the program counter already past the word.
    pub fn cycle(&mut self) -> (r: Result<(), Chip8Error>)
        requires
            old(self)@.wf(),
        ensures
            exists|b: u8| #[trigger] cycle_spec(old(self)@, b) == (final(self)@, r),
            final(self)@.wf(),
    {
        if self.emulator_state != EmulatorState::ProgramLoaded {
            assert(cycle_spec(self@, 0) == (self@, Err::<(), Chip8Error>(Chip8Error::ProgramNotLoaded)));
            return Err(Chip8Error::ProgramNotLoaded);
        }
        let ghost s0 = self@;
        let raw = match self.fetch() {
            Ok(w) => w,
            Err(e) => {
                assert(cycle_spec(s0, 0) == (self@, Err::<(), Chip8Error>(e)));
                return Err(e);
            },
        };
        let ghost fetched = self@;
        let instruction = match self.decode(raw) {
            Ok(i) => i,
            Err(e) => {
                assert(cycle_spec(s0, 0) == (self@, Err::<(), Chip8Error>(e)));
                return Err(e);
            },
        };
        let r = self.execute(instruction);
        proof {
            let b = choose|b: u8| carried_out(#[trigger] execute_spec(fetched, instruction, b), fetched, r, self@);
            match r {
                Ok(u) => {
                    // The payload of a unit result is the unit value.
                    assert(u == ());
                    assert(cycle_spec(s0, b) == (self@, r));
                },
                Err(e) => {
                    assert(cycle_spec(s0, b) == (self@, r));
                },
            }
        }
        r
    }

    /// Register V`x`.
    pub fn register(&self, x: u8) -> (r: u8)
        requires
            self@.wf(),
            x < 16,
        ensures
            r == self@.reg(x as int),
    {
        self.registers[x as usize]
    }

    /// The index register I.
    pub fn index_register(&self) -> (r: u16)
        ensures
            r == self@.index_register,
    {
        self.index_register
    }

    /// The address of the next instruction.
    pub fn program_counter(&self) -> (r: u16)
        ensures
            r == self@.program_counter,
    {
        self.program_counter
    }

    /// The stack pointer.
    pub fn stack_pointer(&self) -> (r: u16)
        ensures
            r == self@.stack_pointer,
    {
        self.stack_pointer
    }

    /// The lifecycle state.
    pub fn emulator_state(&self) -> (r: EmulatorState)
        ensures
            r == self@.emulator_state,
    {
        self.emulator_state
    }

    /// The byte at `address`.
    pub fn byte(&self, address: usize) -> (r: u8)
        requires
            self@.wf(),
            address < MEMORY_SIZE,
        ensures
            r == self@.memory[address as int],
    {
        self.memory.byte(address)
    }

    /// The big-endian word at `address` and `address + 1`.
    pub fn word(&self, address: usize) -> (r: u16)
        requires
            self@.wf(),
            address + 1 < MEMORY_SIZE,
        ensures
            r == word_at(self@.memory, address as int),
    {
        self.memory.word(address)
    }

    /// Whether the pixel at (`x`, `y`) is lit.
    pub fn pixel(&self, x: u8, y: u8) -> (r: bool)
        requires
            self@.wf(),
            x < 64,
            y < 32,
        ensures
            r == self@.screen[crate::screen::pixel_index(x as int, y as int)],
    {
        self.screen.pixel(x, y)
    }

    /// A copy of the display.
    pub fn clone_frame(&self) -> (r: Vec<bool>)
        ensures
            r@ == self@.screen,
    {
        self.screen.clone_frame()
    }
}

} // verus!
