//! A reusable countdown clock: armed with a duration, advanced by elapsed
//! time, it reports readiness once the remaining time reaches zero. Every
//! time-gated transition in the simulation (formation moves, projectile
//! climbs, explosion lifetimes) is scheduled by one of these.

use vstd::prelude::*;

verus! {

/// Countdown state of a clock, in microseconds.
#[derive(Clone, Copy)]
pub struct Clock {
    duration: u64,
    remaining: u64,
    ready: bool,
}

/// Mathematical model of a `Clock`.
#[verifier::ext_equal]
pub struct ClockView {
    pub duration: int,
    pub remaining: int,
    pub ready: bool,
}

impl View for Clock {
    type V = ClockView;

    closed spec fn view(&self) -> ClockView {
        ClockView {
            duration: self.duration as int,
            remaining: self.remaining as int,
            ready: self.ready,
        }
    }
}

/// A clock is well formed when its remaining time never exceeds the duration
/// it was armed with, and the duration fits the machine word it is stored in.
pub open spec fn clock_wf(c: ClockView) -> bool {
    0 <= c.remaining <= c.duration <= u64::MAX
}

/// A clock freshly armed with `duration`: full time remaining, not ready.
pub open spec fn clock_armed(duration: int) -> ClockView {
    ClockView { duration, remaining: duration, ready: false }
}

/// A clock after `delta` time has elapsed: the remaining time drops, floored
/// at zero, and the clock becomes ready exactly when the remaining time hits
/// zero. Readiness is only cleared by rearming.
pub open spec fn clock_advanced(c: ClockView, delta: int) -> ClockView {
    let remaining = if c.remaining <= delta {
        0
    } else {
        c.remaining - delta
    };
    ClockView { remaining, ready: c.ready || remaining == 0, ..c }
}

/// A clock rearmed to its original duration, readiness cleared.
pub open spec fn clock_rearmed(c: ClockView) -> ClockView {
    ClockView { remaining: c.duration, ready: false, ..c }
}

impl Clock {
    /// Arms a clock with the given duration in microseconds.
    pub fn new(duration: u64) -> (c: Clock)
        ensures
            c@ == clock_armed(duration as int),
            clock_wf(c@),
    {
        Clock { duration, remaining: duration, ready: false }
    }

    /// Advances the clock by `delta` microseconds of elapsed time.
    pub fn advance(&mut self, delta: u64)
        ensures
            final(self)@ == clock_advanced(old(self)@, delta as int),
    {
        if self.remaining <= delta {
            self.remaining = 0;
            self.ready = true;
        } else {
            self.remaining = self.remaining - delta;
        }
    }

    /// Rearms the clock to its original duration and clears readiness.
    pub fn reset(&mut self)
        ensures
            final(self)@ == clock_rearmed(old(self)@),
    {
        self.remaining = self.duration;
        self.ready = false;
    }

    /// True once the remaining time has reached zero since the last arming.
    pub fn is_ready(&self) -> (ready: bool)
        ensures
            ready == self@.ready,
    {
        self.ready
    }

    /// The duration the clock is currently armed with, in microseconds.
    pub fn duration_micros(&self) -> (duration: u64)
        ensures
            duration as int == self@.duration,
    {
        self.duration
    }

    /// The time left before the clock becomes ready, in microseconds.
    pub fn remaining_micros(&self) -> (remaining: u64)
        ensures
            remaining as int == self@.remaining,
    {
        self.remaining
    }

    /// True while more than half of the armed duration is still remaining;
    /// the renderer uses this to alternate animation glyphs.
    pub fn more_than_half_left(&self) -> (more: bool)
        ensures
            more == (2 * self@.remaining > self@.duration),
    {
        self.remaining > self.duration / 2
    }
}

} // verus!
