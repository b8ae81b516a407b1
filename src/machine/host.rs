//! The boundary with the host: key input, restart requests, timer cadence
//! and frame hand-off.
use vstd::prelude::*;

use super::Chip8;
use crate::error::Chip8Error;
use crate::semantics::cycle_spec;
use crate::state::{initialized_state, load_program_spec, MachineState};
use crate::timer::ticked;

verus! {

/// Number of cycles per timer tick: at about 720 cycles a second the timers
/// tick at 60 Hz.
pub const CYCLES_PER_TIMER_TICK: u64 = 12;

/// What the host reports to the machine at a cycle boundary.
#[derive(Debug, Clone, Copy, PartialEq, Eq, Structural)]
pub enum HostSignal {
    /// The key now held (0x0 to 0xF), or none.
    KeyState(Option<u8>),
    /// Start the program over from a fresh machine.
    RestartRequested,
}

/// One timer tick: both countdowns move one step towards 0.
pub open spec fn tick_spec(s: MachineState) -> MachineState {
    MachineState { delay_timer: ticked(s.delay_timer), sound_timer: ticked(s.sound_timer), ..s }
}

/// The state after `signal` is applied to `s`, and the result. A key
/// report replaces the held key; a restart initializes the machine and
/// loads `program` again.
pub open spec fn host_signal_spec(s: MachineState, signal: HostSignal, program: Seq<u8>) -> (
    MachineState,
    Result<(), Chip8Error>,
) {
    match signal {
        HostSignal::KeyState(k) => (MachineState { key_pressed: k, ..s }, Ok(())),
        HostSignal::RestartRequested => match load_program_spec(initialized_state(), program) {
            Ok(t) => (t, Ok(())),
            Err(e) => (initialized_state(), Err(e)),
        },
    }
}

/// `c + 1` modulo 2^64.
pub open spec fn next_count(c: u64) -> u64 {
    ((c + 1) % 0x1_0000_0000_0000_0000) as u64
}

impl Chip8 {
    /// One timer tick: decrements each countdown that is above 0. Returns
    /// whether the buzzer sounds on this tick.
    pub fn tick_timers(&mut self) -> (buzz: bool)
        requires
            old(self)@.wf(),
        ensures
            final(self)@ == tick_spec(old(self)@),
            buzz == (old(self)@.sound_timer > 0),
            final(self)@.wf(),
    {
        self.delay_timer.decrement();
        self.sound_timer.decrement()
    }

    /// Runs one cycle as [`Chip8::cycle`] does and counts it; when the count
    /// reaches a multiple of [`CYCLES_PER_TIMER_TICK`] the timers tick too.
    /// Returns the new count and whether the buzzer sounds. On an error the
    /// count and the timers are left alone.
    pub fn cycle_counted(&mut self, cycle_count: u64) -> (r: Result<(u64, bool), Chip8Error>)
        requires
            old(self)@.wf(),
        ensures
            exists|b: u8|
                {
                    let (mid, res) = #[trigger] cycle_spec(old(self)@, b);
                    match res {
                        Err(e) => r == Err::<(u64, bool), Chip8Error>(e) && final(self)@ == mid,
                        Ok(_) => if next_count(cycle_count) % CYCLES_PER_TIMER_TICK == 0 {
                            r == Ok::<(u64, bool), Chip8Error>(
                                (next_count(cycle_count), mid.sound_timer > 0),
                            ) && final(self)@ == tick_spec(mid)
                        } else {
                            r == Ok::<(u64, bool), Chip8Error>((next_count(cycle_count), false))
                                && final(self)@ == mid
                        },
                    }
                },
            final(self)@.wf(),
    {
        let ghost s0 = self@;
        let res = self.cycle();
        let ghost mid = self@;
        let ghost b = choose|b: u8| #[trigger] cycle_spec(s0, b) == (mid, res);
        if let Err(e) = res {
            assert(cycle_spec(s0, b) == (mid, res));
            return Err(e);
        }
        let count = if cycle_count == u64::MAX {
            0
        } else {
            cycle_count + 1
        };
        assert(count == next_count(cycle_count));
        let buzz = if count % CYCLES_PER_TIMER_TICK == 0 {
            self.tick_timers()
        } else {
            false
        };
        assert(cycle_spec(s0, b) == (mid, res));
        Ok((count, buzz))
    }

    /// Applies what the host reported at a cycle boundary: a new key state,
    /// or a restart that initializes the machine and loads `program` again.
    pub fn apply_host_signal(&mut self, signal: HostSignal, program: &Vec<u8>) -> (r: Result<(), Chip8Error>)
        requires
            old(self)@.wf(),
        ensures
            host_signal_spec(old(self)@, signal, program@) == (final(self)@, r),
            final(self)@.wf(),
    {
        match signal {
            HostSignal::KeyState(k) => {
                self.key_pressed = k;
                Ok(())
            },
            HostSignal::RestartRequested => {
                let _ = self.initialize();
                let r = self.load_program(program.clone());
                match r {
                    Ok(u) => {
                        // The payload of a unit result is the unit value.
                        assert(u == ());
                    },
                    Err(_) => {},
                }
                r
            },
        }
    }

    /// A copy of the display when it changed since the previous call, and
    /// `None` otherwise; the machine then counts the display as presented.
    pub fn take_frame(&mut self) -> (r: Option<Vec<bool>>)
        requires
            old(self)@.wf(),
        ensures
            old(self)@.frame_pending ==> r is Some && r->Some_0@ == old(self)@.screen,
            !old(self)@.frame_pending ==> r is None,
            final(self)@ == (MachineState { frame_pending: false, ..old(self)@ }),
            final(self)@.wf(),
    {
        if self.frame_pending {
            self.frame_pending = false;
            Some(self.screen.clone_frame())
        } else {
            None
        }
    }
}

} // verus!
