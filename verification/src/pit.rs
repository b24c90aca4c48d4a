//! Interval timer bookkeeping: the divisor programming and the tick
//! arithmetic of the 8253/8254 channel-0 square wave.

use vstd::prelude::*;

verus! {

/// The PIT input frequency, in Hz
pub const PIT_FREQUENCY: u32 = 1193182;

/// The default tick rate, in Hz
pub const DEFAULT_HZ: u32 = 100;

/// The divisor programmed for a target rate.
pub fn divisor_for(hz: u32) -> (r: u32)
    requires
        hz >= 1,
    ensures
        r == PIT_FREQUENCY / hz,
{
    PIT_FREQUENCY / hz
}

/// Timer state: the tick counter and the programmed rate.  The port
/// writes that program the divisor and the interrupt that calls `tick`
/// live with the caller.
pub struct Pit {
    /// Ticks seen so far
    pub ticks: u32,
    /// Programmed rate, in Hz
    pub hz: u32,
}

impl Pit {
    pub open spec fn wf(&self) -> bool {
        1 <= self.hz <= PIT_FREQUENCY
    }

    /// A timer at the default 100 Hz with no ticks seen.
    pub fn new() -> (r: Pit)
        ensures
            r.wf(),
            r.ticks == 0,
            r.hz == DEFAULT_HZ,
    {
        Pit { ticks: 0, hz: DEFAULT_HZ }
    }

    /// Reprogram the rate; the divisor to write to the channel is
    /// returned.
    pub fn set_frequency(&mut self, hz: u32) -> (r: u32)
        requires
            old(self).wf(),
            1 <= hz <= PIT_FREQUENCY,
        ensures
            final(self).wf(),
            final(self).hz == hz,
            final(self).ticks == old(self).ticks,
            r == PIT_FREQUENCY / hz,
    {
        self.hz = hz;
        PIT_FREQUENCY / hz
    }

    /// Count one timer interrupt; the counter wraps.
    pub fn tick(&mut self)
        requires
            old(self).wf(),
        ensures
            final(self).wf(),
            final(self).hz == old(self).hz,
            final(self).ticks == (if old(self).ticks < 0xFFFFFFFF {
                old(self).ticks + 1
            } else {
                0int
            }),
    {
        if self.ticks < 0xFFFFFFFF {
            self.ticks = self.ticks + 1;
        } else {
            self.ticks = 0;
        }
    }

    /// The current tick count.
    pub fn ticks(&self) -> (r: u32)
        ensures
            r == self.ticks,
    {
        self.ticks
    }

    /// Uptime in milliseconds: whole seconds in milliseconds plus the
    /// fractional ticks scaled.
    pub fn uptime_ms(&self) -> (r: u32)
        requires
            self.wf(),
            (self.ticks / self.hz) * 1000 + (((self.ticks % self.hz) * 1000) as int) / (
            self.hz as int) <= u32::MAX,
        ensures
            r == (self.ticks / self.hz) * 1000 + (((self.ticks % self.hz) * 1000) as int) / (
            self.hz as int),
    {
        proof {
            assert(self.ticks % self.hz < self.hz) by (nonlinear_arith)
                requires
                    self.hz >= 1,
            ;
            assert((self.ticks % self.hz) * 1000 <= (PIT_FREQUENCY - 1) * 1000)
                by (nonlinear_arith)
                requires
                    self.ticks % self.hz < self.hz,
                    self.hz <= PIT_FREQUENCY,
            ;
        }
        (self.ticks / self.hz) * 1000 + ((self.ticks % self.hz) * 1000) / self.hz
    }

    /// Uptime in whole seconds.
    pub fn uptime_secs(&self) -> (r: u32)
        requires
            self.wf(),
        ensures
            r == self.ticks / self.hz,
    {
        self.ticks / self.hz
    }
}

} // verus!
