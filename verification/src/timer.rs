//! What the two countdown timers share: the report a tick gives and the
//! arithmetic of counting down to a floor of zero.

use vstd::prelude::*;

verus! {

/// The value a freshly made timer holds.
pub const INITIAL_VALUE: u8 = 255;

/// What one tick did to a timer.
#[derive(Clone, Copy, Debug, PartialEq, Eq, Structural)]
pub enum Tick {
    /// The timer was above zero and went down by one.
    Counted,
    /// The timer was already at zero and stayed there.
    Idle,
}

/// The value a timer holds one tick after holding `value`.
pub open spec fn ticked(value: u8) -> u8 {
    if value > 0 {
        (value - 1) as u8
    } else {
        0
    }
}

/// The report of a tick taken while the timer holds `value`.
pub open spec fn tick_report(value: u8) -> Tick {
    if value > 0 {
        Tick::Counted
    } else {
        Tick::Idle
    }
}

/// The value a timer holds `ticks` ticks after holding `value`.
pub open spec fn after_ticks(value: u8, ticks: nat) -> u8
    decreases ticks,
{
    if ticks == 0 {
        value
    } else {
        ticked(after_ticks(value, (ticks - 1) as nat))
    }
}

/// Counting down stops at zero: after `ticks` ticks a timer that held `value`
/// holds `value - ticks`, or zero once `ticks` has reached `value`; however
/// many more ticks follow, it stays at zero and never wraps around.
pub proof fn lemma_ticks_stop_at_zero(value: u8, ticks: nat)
    ensures
        ticks < value ==> after_ticks(value, ticks) == value - ticks,
        ticks >= value ==> after_ticks(value, ticks) == 0,
        ticks >= value ==> tick_report(after_ticks(value, ticks)) == Tick::Idle,
    decreases ticks,
{
    if ticks > 0 {
        lemma_ticks_stop_at_zero(value, (ticks - 1) as nat);
    }
}

} // verus!
