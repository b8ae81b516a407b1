//! A CHIP-8 virtual machine whose behaviour is stated and proved with Verus.
use vstd::prelude::*;

pub mod error;
pub mod instruction;
pub mod machine;
pub mod memory;
pub mod screen;
pub mod semantics;
pub mod stack;
pub mod state;
pub mod timer;

pub use error::Chip8Error;
pub use instruction::Instruction;
pub use machine::host::HostSignal;
pub use machine::Chip8;
pub use state::EmulatorState;
pub use timer::{DelayTimer, SoundTimer};

verus! {

/// Width of the display, in pixels.
pub const WIDTH: usize = 64;

/// Height of the display, in pixels.
pub const HEIGHT: usize = 32;

} // verus!
