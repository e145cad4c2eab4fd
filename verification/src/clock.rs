//! Time sources for capture-latency measurement.
//!
//! The capture side reads a monotonic counter before and after each capture
//! call. The counter is injected as a capability so that measurement logic
//! can be driven by a deterministic source under test.

use vstd::prelude::*;

verus! {

/// A monotonic-counter capability, in nanoseconds.
///
/// Nothing is promised about the values: real time depends on the machine.
pub trait TimeSource: Sized {
    fn now_nanos(&mut self) -> (r: u64);
}

/// The machine's monotonic clock.
#[verifier::external_body]
pub struct MonotonicClock {
    origin: std::time::Instant,
}

impl MonotonicClock {
    /// Relies on `std::time::Instant::now` for a monotonic origin.
    #[verifier::external_body]
    pub fn new() -> (r: MonotonicClock) {
        MonotonicClock { origin: std::time::Instant::now() }
    }

    /// Relies on `std::time::Instant::elapsed`; saturates at `u64::MAX`.
    #[verifier::external_body]
    fn elapsed_nanos(&self) -> (r: u64) {
        let nanos: u128 = self.origin.elapsed().as_nanos();
        if nanos > u64::MAX as u128 {
            u64::MAX
        } else {
            nanos as u64
        }
    }
}

impl TimeSource for MonotonicClock {
    fn now_nanos(&mut self) -> (r: u64) {
        self.elapsed_nanos()
    }
}

/// A deterministic time source: hands out a scripted list of instants, then
/// repeats the last one. Fresh instances of the script start at the front.
pub struct FakeClock {
    pub script: Vec<u64>,
    pub pos: usize,
}

impl FakeClock {
    pub fn new(script: Vec<u64>) -> (r: FakeClock)
        ensures
            r.script == script,
            r.pos == 0,
    {
        FakeClock { script, pos: 0 }
    }

    /// The value `now_nanos` returns in state `self`.
    pub open spec fn current_spec(&self) -> u64 {
        if self.script.len() == 0 {
            0u64
        } else if self.pos < self.script.len() {
            self.script[self.pos as int]
        } else {
            self.script[self.script.len() - 1]
        }
    }
}

impl TimeSource for FakeClock {
    fn now_nanos(&mut self) -> (r: u64)
        ensures
            r == old(self).current_spec(),
            final(self).script == old(self).script,
            final(self).pos == if old(self).pos < old(self).script.len() {
                old(self).pos + 1
            } else {
                old(self).pos as int
            },
    {
        if self.script.len() == 0 {
            0
        } else if self.pos < self.script.len() {
            let r = self.script[self.pos];
            self.pos = self.pos + 1;
            r
        } else {
            self.script[self.script.len() - 1]
        }
    }
}

} // verus!
