//! The abstract state of the machine, against which every operation is stated.
use vstd::prelude::*;

use crate::error::Chip8Error;
use crate::memory::{with_font_set, word_at, MEMORY_SIZE, PROGRAM_OFFSET};
use crate::screen::{blank_screen, SCREEN_SIZE};

verus! {

/// Address one past the bottom slot of the call stack; the stack pointer of
/// an empty stack.
pub const STACK_BOTTOM: u16 = 0x200;

/// Address of the top slot of the call stack; the stack pointer of a full
/// stack.
pub const STACK_TOP: u16 = 0x000;

/// Number of return addresses that the stack holds.
pub const STACK_CAPACITY: usize = 256;

/// Number of general registers V0 to VF.
pub const REGISTER_COUNT: usize = 16;

/// Index of VF, the register that also serves as carry, borrow and collision flag.
pub const FLAG_REGISTER: usize = 15;

/// Where the machine stands in its lifecycle.
#[derive(Debug, Clone, Copy, PartialEq, Eq, Structural)]
pub enum EmulatorState {
    /// Nothing has been set up.
    InterpreterMemoryUninitialized,
    /// Memory, registers and devices are reset and the font is loaded.
    InterpreterMemoryInitialized,
    /// A program image is in memory; cycles may run.
    ProgramLoaded,
}

/// The outcome of asking to move from `from` to `to` as a normal
/// transition: the new state, or the error that refuses the move. Memory is
/// initialized only from the uninitialized state; a program may be loaded,
/// again and again, once memory is initialized. (A deliberate reset is
/// [`crate::Chip8::initialize`], which does not go through this.)
pub open spec fn transition(from: EmulatorState, to: EmulatorState) -> Result<
    EmulatorState,
    Chip8Error,
> {
    match to {
        EmulatorState::InterpreterMemoryInitialized => if from
            == EmulatorState::InterpreterMemoryUninitialized {
            Ok(to)
        } else {
            Err(Chip8Error::InterpreterMemoryAlreadyInitialized)
        },
        EmulatorState::ProgramLoaded => if from == EmulatorState::InterpreterMemoryUninitialized {
            Err(Chip8Error::InterpreterMemoryIsUninitialized)
        } else {
            Ok(to)
        },
        EmulatorState::InterpreterMemoryUninitialized => Ok(to),
    }
}

impl EmulatorState {
    /// Moves to `new_state` where [`transition`] allows it. Moving back to
    /// the uninitialized state is a defect of the caller and is excluded.
    pub fn change_states(&mut self, new_state: EmulatorState) -> (r: Result<(), Chip8Error>)
        requires
            new_state != EmulatorState::InterpreterMemoryUninitialized,
        ensures
            match transition(*old(self), new_state) {
                Ok(s) => r is Ok && *final(self) == s,
                Err(e) => r == Err::<(), Chip8Error>(e) && *final(self) == *old(self),
            },
    {
        match new_state {
            EmulatorState::InterpreterMemoryInitialized => {
                if *self != EmulatorState::InterpreterMemoryUninitialized {
                    return Err(Chip8Error::InterpreterMemoryAlreadyInitialized);
                }
            },
            EmulatorState::ProgramLoaded => {
                if *self == EmulatorState::InterpreterMemoryUninitialized {
                    return Err(Chip8Error::InterpreterMemoryIsUninitialized);
                }
            },
            _ => {},
        }
        *self = new_state;
        Ok(())
    }
}

/// Everything that the machine holds, as mathematical values.
pub struct MachineState {
    /// The 4096 bytes of memory.
    pub memory: Seq<u8>,
    /// The 2048 pixels of the display, row by row.
    pub screen: Seq<bool>,
    /// V0 to VF.
    pub registers: Seq<u8>,
    /// The index register I.
    pub index_register: u16,
    /// The address of the next instruction.
    pub program_counter: u16,
    /// The address of the most recently pushed stack slot; [`STACK_BOTTOM`]
    /// when the stack is empty.
    pub stack_pointer: u16,
    /// The delay countdown.
    pub delay_timer: u8,
    /// The sound countdown.
    pub sound_timer: u8,
    /// The key that the host last reported as held, if any.
    pub key_pressed: Option<u8>,
    /// The lifecycle state.
    pub emulator_state: EmulatorState,
    /// Whether the display changed since the host last took a frame.
    pub frame_pending: bool,
}

impl MachineState {
    /// The sizes of memory, display and register file, and a stack pointer
    /// that lies on a slot boundary inside the stack window.
    pub open spec fn wf(self) -> bool {
        &&& self.memory.len() == MEMORY_SIZE
        &&& self.screen.len() == SCREEN_SIZE
        &&& self.registers.len() == REGISTER_COUNT
        &&& self.stack_pointer <= STACK_BOTTOM
        &&& self.stack_pointer % 2 == 0
    }

    /// Number of return addresses on the stack.
    pub open spec fn stack_depth(self) -> int {
        (STACK_BOTTOM - self.stack_pointer) / 2
    }

    /// Register `x`.
    pub open spec fn reg(self, x: int) -> u8 {
        self.registers[x]
    }
}

/// The state of a machine that has just been created.
pub open spec fn created_state() -> MachineState {
    MachineState {
        memory: Seq::new(MEMORY_SIZE as nat, |a: int| 0u8),
        screen: blank_screen(),
        registers: Seq::new(REGISTER_COUNT as nat, |i: int| 0u8),
        index_register: 0,
        program_counter: PROGRAM_OFFSET as u16,
        stack_pointer: STACK_BOTTOM,
        delay_timer: 0,
        sound_timer: 0,
        key_pressed: None,
        emulator_state: EmulatorState::InterpreterMemoryUninitialized,
        frame_pending: false,
    }
}

/// The state right after initialization: zeroed memory holding the font,
/// a blank display that awaits presentation, zeroed registers and timers,
/// an empty stack, no key, and execution set to start at the program.
pub open spec fn initialized_state() -> MachineState {
    MachineState {
        memory: with_font_set(Seq::new(MEMORY_SIZE as nat, |a: int| 0u8)),
        emulator_state: EmulatorState::InterpreterMemoryInitialized,
        frame_pending: true,
        ..created_state()
    }
}

/// `mem` with `program` placed at [`PROGRAM_OFFSET`] and every byte after
/// it zeroed; the bytes below the program are kept.
pub open spec fn with_program(mem: Seq<u8>, program: Seq<u8>) -> Seq<u8> {
    Seq::new(
        mem.len(),
        |a: int|
            if a < PROGRAM_OFFSET {
                mem[a]
            } else if a < PROGRAM_OFFSET + program.len() {
                program[a - PROGRAM_OFFSET]
            } else {
                0u8
            },
    )
}

/// The outcome of loading `program` into `s`.
pub open spec fn load_program_spec(s: MachineState, program: Seq<u8>) -> Result<
    MachineState,
    Chip8Error,
> {
    match transition(s.emulator_state, EmulatorState::ProgramLoaded) {
        Err(e) => Err(e),
        Ok(next) => if PROGRAM_OFFSET + program.len() > MEMORY_SIZE {
            Err(Chip8Error::AddressOutOfRange { address: MEMORY_SIZE })
        } else {
            Ok(
                MachineState {
                    memory: with_program(s.memory, program),
                    emulator_state: next,
                    ..s
                },
            )
        },
    }
}

/// After a program is loaded, the word at the program address is made of
/// its first two bytes, big-endian; every image byte sits at its offset from
/// the program address; and memory past the image is zero.
pub proof fn lemma_load_program_round_trip(s: MachineState, program: Seq<u8>)
    requires
        s.wf(),
        s.emulator_state != EmulatorState::InterpreterMemoryUninitialized,
        PROGRAM_OFFSET + program.len() <= MEMORY_SIZE,
        program.len() >= 2,
    ensures
        load_program_spec(s, program) is Ok,
        load_program_spec(s, program)->Ok_0.wf(),
        word_at(load_program_spec(s, program)->Ok_0.memory, PROGRAM_OFFSET as int) == word_at(
            program,
            0,
        ),
        forall|j: int|
            0 <= j < program.len() ==> #[trigger] load_program_spec(s, program)->Ok_0.memory[
            PROGRAM_OFFSET + j] == program[j],
        forall|a: int|
            PROGRAM_OFFSET + program.len() <= a < MEMORY_SIZE ==> #[trigger] load_program_spec(
                s,
                program,
            )->Ok_0.memory[a] == 0,
{
}

} // verus!
