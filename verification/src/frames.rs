//! Frame-rate accounting.
//!
//! The host invokes a plugin once per frame.  `FramesPerSecond` counts those
//! invocations and, once a full reporting window has elapsed, yields the
//! number of frames per second observed during the window.  Time enters as a
//! plain millisecond reading supplied by the caller, so the whole computation
//! is verified; the caller is expected to read a monotonic clock, but a
//! reading that moves backwards is tolerated and treated as no elapsed time.

use vstd::prelude::*;

verus! {

/// Rates are reported per second; the clock readings are in milliseconds.
pub const MILLIS_PER_SECOND: u64 = 1000;

/// A helper to count frames per second.
///
/// Feed every frame to [`FramesPerSecond::tick`]; once at least one second
/// has passed since the last report it returns the observed rate.
pub struct FramesPerSecond {
    /// Frames seen since the current window opened.
    count: u64,
    /// Clock reading at which the current window opened.
    window_start_millis: u64,
}

impl FramesPerSecond {
    /// Frames counted so far in the open window.
    pub closed spec fn spec_count(self) -> u64 {
        self.count
    }

    /// The clock reading at which the open window started.
    pub closed spec fn spec_window_start(self) -> u64 {
        self.window_start_millis
    }

    /// One more frame, saturating at the machine limit.
    pub open spec fn bumped(count: u64) -> u64 {
        if count < u64::MAX {
            (count + 1) as u64
        } else {
            count
        }
    }

    /// Milliseconds elapsed since the window opened; a clock that moved
    /// backwards counts as no elapsed time.
    pub open spec fn spec_elapsed(self, now_millis: u64) -> u64 {
        if now_millis >= self.spec_window_start() {
            (now_millis - self.spec_window_start()) as u64
        } else {
            0
        }
    }

    /// Whether a tick at `now_millis` closes the reporting window.
    pub open spec fn window_closes(self, now_millis: u64) -> bool {
        self.spec_elapsed(now_millis) >= MILLIS_PER_SECOND
    }

    /// The rate reported when the window closes: frames per second over the
    /// actual window length, rounded towards zero.
    pub open spec fn spec_rate(self, now_millis: u64) -> int {
        Self::bumped(self.spec_count()) * MILLIS_PER_SECOND / (self.spec_elapsed(now_millis) as int)
    }

    /// Open a counter whose first window starts at `now_millis`.
    pub fn new(now_millis: u64) -> (counter: FramesPerSecond)
        ensures
            counter.spec_count() == 0,
            counter.spec_window_start() == now_millis,
    {
        FramesPerSecond { count: 0, window_start_millis: now_millis }
    }

    /// Count one frame.  Returns the frames-per-second figure when at least
    /// one second has elapsed since the window opened, and `None` otherwise.
    pub fn tick(&mut self, now_millis: u64) -> (rate: Option<u64>)
        ensures
            old(self).window_closes(now_millis) ==> {
                &&& rate is Some
                &&& rate->0 == old(self).spec_rate(now_millis)
                &&& final(self).spec_count() == 0
                &&& final(self).spec_window_start() == now_millis
            },
            !old(self).window_closes(now_millis) ==> {
                &&& rate is None
                &&& final(self).spec_count() == Self::bumped(old(self).spec_count())
                &&& final(self).spec_window_start() == old(self).spec_window_start()
            },
    {
        let bumped: u64 = if self.count < u64::MAX {
            self.count + 1
        } else {
            self.count
        };
        let elapsed: u64 = if now_millis >= self.window_start_millis {
            now_millis - self.window_start_millis
        } else {
            0
        };
        if elapsed >= MILLIS_PER_SECOND {
            let wide: u128 = (bumped as u128) * (MILLIS_PER_SECOND as u128) / (elapsed as u128);
            proof {
                assert((bumped as int) * (MILLIS_PER_SECOND as int) / (elapsed as int)
                    <= bumped as int) by (nonlinear_arith)
                    requires
                        elapsed >= MILLIS_PER_SECOND,
                        MILLIS_PER_SECOND == 1000,
                        bumped >= 0,
                ;
            }
            let rate: u64 = wide as u64;
            self.count = 0;
            self.window_start_millis = now_millis;
            Some(rate)
        } else {
            self.count = bumped;
            None
        }
    }
}

} // verus!
