use vstd::prelude::*;

verus! {

/// The two countdown timers of the machine: a delay timer and a sound timer.
///
/// Both are byte counters clamped at zero. Instructions set them and read the
/// delay timer; an external fixed-rate driver, not the interpreter, calls the
/// tick functions.
pub struct Timer {
    pub delay_timer: u8,
    pub sound_timer: u8,
}

impl Timer {
    /// Both timers start at zero.
    pub fn new() -> (t: Timer)
        ensures
            t.delay_timer == 0,
            t.sound_timer == 0,
    {
        Timer { delay_timer: 0, sound_timer: 0 }
    }

    pub fn read_delay_timer(&self) -> (r: u8)
        ensures
            r == self.delay_timer,
    {
        self.delay_timer
    }

    pub fn read_sound_timer(&self) -> (r: u8)
        ensures
            r == self.sound_timer,
    {
        self.sound_timer
    }

    pub fn set_delay_timer(&mut self, value: u8)
        ensures
            final(self).delay_timer == value,
            final(self).sound_timer == old(self).sound_timer,
    {
        self.delay_timer = value;
    }

    pub fn set_sound_timer(&mut self, value: u8)
        ensures
            final(self).sound_timer == value,
            final(self).delay_timer == old(self).delay_timer,
    {
        self.sound_timer = value;
    }

    /// Decrement the delay timer, flooring at zero.
    pub fn tick_delay(&mut self)
        ensures
            final(self).delay_timer == if old(self).delay_timer > 0 {
                (old(self).delay_timer - 1) as u8
            } else {
                0u8
            },
            final(self).sound_timer == old(self).sound_timer,
    {
        if self.delay_timer > 0 {
            self.delay_timer = self.delay_timer - 1;
        }
    }

    /// Decrement the sound timer, flooring at zero.
    pub fn tick_sound(&mut self)
        ensures
            final(self).sound_timer == if old(self).sound_timer > 0 {
                (old(self).sound_timer - 1) as u8
            } else {
                0u8
            },
            final(self).delay_timer == old(self).delay_timer,
    {
        if self.sound_timer > 0 {
            self.sound_timer = self.sound_timer - 1;
        }
    }
}

} // verus!
