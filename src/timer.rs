//! The two 60 Hz countdown timers.
use vstd::prelude::*;

verus! {

/// A countdown that programs set and read; it decrements at 60 Hz until it
/// reaches 0.
#[derive(Debug, Default, Clone, Copy)]
pub struct DelayTimer(pub u8);

/// A countdown that sounds the buzzer while it is above 0; it decrements at
/// 60 Hz until it reaches 0.
#[derive(Debug, Default, Clone, Copy)]
pub struct SoundTimer(pub u8);

/// The value of a countdown after one tick: one less, but never below 0.
pub open spec fn ticked(v: u8) -> u8 {
    if v > 0 {
        (v - 1) as u8
    } else {
        0
    }
}

impl DelayTimer {
    /// One tick: decrements the counter unless it is already 0.
    pub fn decrement(&mut self)
        ensures
            final(self).0 == ticked(old(self).0),
    {
        if self.0 > 0 {
            self.0 = self.0 - 1;
        }
    }
}

impl SoundTimer {
    /// One tick: decrements the counter unless it is already 0. Returns
    /// whether the buzzer sounds on this tick, that is whether the counter
    /// was above 0.
    pub fn decrement(&mut self) -> (buzz: bool)
        ensures
            final(self).0 == ticked(old(self).0),
            buzz == (old(self).0 > 0),
    {
        if self.0 > 0 {
            self.0 = self.0 - 1;
            true
        } else {
            false
        }
    }
}

/// Ticking a countdown `n` times from `v` gives `v - n`, and 0 once `n` has
/// reached `v`: it never wraps below 0.
pub open spec fn ticked_n(v: u8, n: nat) -> u8
    decreases n,
{
    if n == 0 {
        v
    } else {
        ticked(ticked_n(v, (n - 1) as nat))
    }
}

/// `n` ticks take a countdown from `v` to `max(v - n, 0)`.
pub proof fn lemma_ticks_saturate(v: u8, n: nat)
    ensures
        ticked_n(v, n) == if n <= v { (v - n) as u8 } else { 0u8 },
    decreases n,
{
    if n > 0 {
        lemma_ticks_saturate(v, (n - 1) as nat);
    }
}

} // verus!
