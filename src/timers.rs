//! The delay and sound timers.
use vstd::prelude::*;

verus! {

/// Two byte counters that an outside clock lowers by one per tick.
#[derive(Debug, Clone, Copy, PartialEq, Eq, Structural)]
pub struct Timers {
    pub delay: u8,
    pub sound: u8,
}

impl Timers {
    /// Both timers at zero.
    pub fn new() -> (r: Timers)
        ensures
            r.delay == 0,
            r.sound == 0,
    {
        Timers { delay: 0, sound: 0 }
    }

    /// Sets both timers to zero.
    pub fn reset(&mut self)
        ensures
            final(self).delay == 0,
            final(self).sound == 0,
    {
        self.delay = 0;
        self.sound = 0;
    }

    /// One tick of the clock: each timer above zero goes down by one.
    pub fn tick(&mut self)
        ensures
            final(self).delay == if old(self).delay > 0 { old(self).delay - 1 } else { 0 },
            final(self).sound == if old(self).sound > 0 { old(self).sound - 1 } else { 0 },
    {
        if self.delay > 0 {
            self.delay = self.delay - 1;
        }
        if self.sound > 0 {
            self.sound = self.sound - 1;
        }
    }

    /// Sound plays while the sound timer is above zero.
    pub fn sound_active(&self) -> (r: bool)
        ensures
            r == (self.sound > 0),
    {
        self.sound > 0
    }
}

} // verus!
