//! The sound timer: an 8-bit counter; a tone is due for as long as it is above zero.

use vstd::prelude::*;
use crate::timer::{tick_report, ticked, Tick, INITIAL_VALUE};

verus! {

/// The sound timer. It counts down only when ticked from outside, at a rate
/// that is independent of how fast instructions run.
#[derive(Clone, Copy, Debug)]
pub struct SoundTimer {
    value: u8,
}

impl View for SoundTimer {
    type V = u8;

    closed spec fn view(&self) -> u8 {
        self.value
    }
}

impl SoundTimer {
    /// A timer at its initial value of 255.
    pub fn new() -> (timer: Self)
        ensures
            timer@ == INITIAL_VALUE,
    {
        Self { value: INITIAL_VALUE }
    }

    /// Advances the timer by one unit: above zero it goes down by one, at
    /// zero it stays at zero and the tick is reported as idle.
    pub fn tick(&mut self) -> (report: Tick)
        ensures
            final(self)@ == ticked(old(self)@),
            report == tick_report(old(self)@),
    {
        if self.value > 0 {
            self.value -= 1;
            Tick::Counted
        } else {
            Tick::Idle
        }
    }

    /// The current count.
    pub fn get_value(&self) -> (val: u8)
        ensures
            val == self@,
    {
        self.value
    }
}

} // verus!
