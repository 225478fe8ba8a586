use vstd::prelude::*;

verus! {

/// The elapsed ticks between two frame timestamps. A clock that runs
/// backwards reports no elapsed time rather than wrapping.
pub open spec fn delta(last: u64, now: u64) -> u64 {
    if now >= last {
        (now - last) as u64
    } else {
        0u64
    }
}

/// Holds the previous frame's timestamp, in whatever tick unit the
/// embedding shell measures time. Starts at zero, so the first frame's
/// delta is the absolute time from startup to the first frame.
pub struct FrameClock {
    last: u64,
}

impl FrameClock {
    /// The timestamp recorded at the last tick; zero before the first.
    pub closed spec fn spec_last(self) -> u64 {
        self.last
    }

    /// A clock whose baseline is zero.
    pub fn new() -> (c: FrameClock)
        ensures
            c.spec_last() == 0,
    {
        FrameClock { last: 0 }
    }

    /// Advances the clock to `now` and reports the ticks elapsed since the
    /// previous tick.
    pub fn tick(&mut self, now: u64) -> (dt: u64)
        ensures
            final(self).spec_last() == now,
            dt == delta(old(self).spec_last(), now),
    {
        let dt = if now >= self.last {
            now - self.last
        } else {
            0
        };
        self.last = now;
        dt
    }
}

} // verus!
