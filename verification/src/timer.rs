//! Programmable interval timer bookkeeping: the tick counter and the fixed
//! 100 Hz configuration. The port writes that program the hardware happen
//! outside the library, with the divisor computed here.

use vstd::prelude::*;

verus! {

/// Base frequency of the interval timer, in Hz.
pub const PIT_FREQUENCY: u32 = 1193182;

/// Configured tick rate: 100 Hz, one tick every 10 ms.
pub const TARGET_FREQUENCY: u32 = 100;

/// The divisor programmed into the timer for the configured tick rate.
pub fn pit_divisor() -> (r: u32)
    ensures
        r == PIT_FREQUENCY / TARGET_FREQUENCY,
{
    PIT_FREQUENCY / TARGET_FREQUENCY
}

/// The global tick counter the timer interrupt advances.
pub struct TickCounter {
    count: u64,
}

impl TickCounter {
    /// Ticks seen so far.
    pub closed spec fn spec_ticks(&self) -> u64 {
        self.count
    }

    /// A counter starting at zero.
    pub fn new() -> (r: Self)
        ensures
            r.spec_ticks() == 0,
    {
        TickCounter { count: 0 }
    }

    /// One timer interrupt: the counter advances by one.
    pub fn tick(&mut self)
        requires
            old(self).spec_ticks() < u64::MAX,
        ensures
            final(self).spec_ticks() == old(self).spec_ticks() + 1,
    {
        self.count = self.count + 1;
    }

    /// Current tick count.
    pub fn ticks(&self) -> (r: u64)
        ensures
            r == self.spec_ticks(),
    {
        self.count
    }

    /// Uptime in whole seconds at the configured tick rate.
    pub fn uptime_seconds(&self) -> (r: u64)
        ensures
            r == self.spec_ticks() / 100,
    {
        self.count / (TARGET_FREQUENCY as u64)
    }
}

/// The tick count at which a sleep of `ms` milliseconds started now ends;
/// the sleeper halts the processor between polls until the counter reaches it.
pub fn sleep_target(now: u64, ms: u64) -> (r: u64)
    requires
        ms * 100 <= u64::MAX,
        now + (ms * 100) / 1000 <= u64::MAX,
    ensures
        r == now + (ms * 100) / 1000,
{
    now + (ms * (TARGET_FREQUENCY as u64)) / 1000
}

} // verus!
