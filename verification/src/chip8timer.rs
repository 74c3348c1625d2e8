//! The 60 Hz countdown timer: an 8-bit value that decreases by one for every
//! whole sixtieth of a second that passes, saturating at zero.

use vstd::prelude::*;
use vstd::arithmetic::div_mod::lemma_div_multiples_vanish_fancy;
use crate::timer::{advanced_reference, whole_ticks, Timer};

verus! {

/// One sixtieth of a second, in whole microseconds (rounded down).
pub const TICK_INTERVAL_MICROS: u64 = 16666;

/// The value an 8-bit countdown holds after `ticks` periods elapse: it loses
/// one per period and floors at zero, never wrapping.
pub open spec fn saturating_countdown(value: u8, ticks: int) -> u8 {
    if ticks >= value {
        0
    } else {
        (value - ticks) as u8
    }
}

/// An 8-bit countdown value driven by a rate accumulator fixed at 60 Hz.
pub struct Chip8Timer {
    value: u8,
    timer: Timer,
}

impl Chip8Timer {
    /// The current 8-bit countdown value.
    pub closed spec fn spec_value(&self) -> u8 {
        self.value
    }

    /// The accumulator's reference time: timestamps handed to [`Chip8Timer::step`]
    /// must not precede it.
    pub closed spec fn reference_time(&self) -> u64 {
        self.timer.prev_time()
    }

    pub closed spec fn wf(&self) -> bool {
        &&& self.timer.wf()
        &&& self.timer.interval() == TICK_INTERVAL_MICROS
    }

    pub fn new(current_time: u64) -> (r: Chip8Timer)
        ensures
            r.wf(),
            r.spec_value() == 0,
            r.reference_time() == current_time,
    {
        Chip8Timer { value: 0, timer: Timer::new(current_time, TICK_INTERVAL_MICROS) }
    }

    /// Subtracts one from the value for every whole 60 Hz period elapsed since
    /// the last step, flooring at zero.
    pub fn step(&mut self, current_time: u64)
        requires
            old(self).wf(),
            old(self).reference_time() <= current_time,
        ensures
            final(self).wf(),
            final(self).spec_value() == saturating_countdown(
                old(self).spec_value(),
                whole_ticks(
                    old(self).reference_time() as int,
                    TICK_INTERVAL_MICROS as int,
                    current_time as int,
                ),
            ),
            final(self).reference_time() == advanced_reference(
                old(self).reference_time() as int,
                TICK_INTERVAL_MICROS as int,
                current_time as int,
            ),
    {
        let ticks = self.timer.step(current_time);
        let capped: u8 = if ticks > 255 {
            255
        } else {
            ticks as u8
        };
        self.value = if capped >= self.value {
            0
        } else {
            self.value - capped
        };
    }

    /// Reads the raw value, bypassing timing.
    pub fn value(&self) -> (r: u8)
        ensures
            r == self.spec_value(),
    {
        self.value
    }

    /// Writes the raw value, bypassing timing.
    pub fn set_value(&mut self, value: u8)
        ensures
            final(self).wf() == old(self).wf(),
            final(self).spec_value() == value,
            final(self).reference_time() == old(self).reference_time(),
    {
        self.value = value;
    }
}

/// Timer saturation: a countdown set to `v` and stepped once after `v + k`
/// whole periods (for any `k >= 0`) reads zero — it never wraps around.
pub proof fn lemma_timer_saturation(v: u8, prev: int, k: int, now: int)
    requires
        k >= 0,
        now == prev + (v + k) * TICK_INTERVAL_MICROS,
    ensures
        saturating_countdown(v, whole_ticks(prev, TICK_INTERVAL_MICROS as int, now)) == 0,
{
    let d = TICK_INTERVAL_MICROS as int;
    assert((now - prev) == d * (v + k)) by (nonlinear_arith)
        requires
            now == prev + (v + k) * d,
    ;
    lemma_div_multiples_vanish_fancy(v + k, 0, d);
}

} // verus!
