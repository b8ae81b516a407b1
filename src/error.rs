//! Faults reported by the machine.
use vstd::prelude::*;

use crate::instruction::Instruction;

verus! {

/// An error raised while operating the machine.
#[derive(Debug, Clone, Copy, PartialEq, Eq, Structural)]
pub enum Chip8Error {
    /// A program was loaded before the memory was initialized.
    InterpreterMemoryIsUninitialized,
    /// The memory was initialized a second time through a normal transition.
    InterpreterMemoryAlreadyInitialized,
    /// A cycle was run before a program was loaded.
    ProgramNotLoaded,
    /// A call was made with every stack slot in use.
    StackOverflow,
    /// A return was made with no call on the stack.
    StackUnderflow,
    /// A `0NNN` word: a call of a native routine, which this machine does not run.
    ProgramNotCompatible,
    /// A word that encodes no instruction, such as `0xFFFF`.
    InvalidInstruction { instruction: u16 },
    /// An instruction that is recognised but cannot be executed.
    UnimplementedInstruction { instruction: Instruction },
    /// An access to a byte outside the memory.
    AddressOutOfRange { address: usize },
}

} // verus!
