//! Visual effects arithmetic: when a blinking element is highlighted.

use vstd::prelude::*;

use crate::util::Time;
use crate::util::Timer;

verus! {

/// A blinking highlight: from `start` on it alternates between highlighted
/// and plain periods of `period` nanoseconds, either forever or until an
/// optional timer of whole periods expires.
#[derive(Debug)]
pub struct BlinkingAnimation {
    start: Time,
    period: u64,
    timer: Option<Timer>,
}

impl BlinkingAnimation {
    pub closed spec fn spec_start(self) -> Time {
        self.start
    }

    pub closed spec fn spec_period(self) -> u64 {
        self.period
    }

    pub closed spec fn spec_timer(self) -> Option<Timer> {
        self.timer
    }

    pub fn new(start: Time, period: u64, duration_periods: Option<u32>) -> (r: Self)
        requires
            duration_periods matches Some(n) ==> period * n <= u64::MAX,
        ensures
            r.spec_start() == start,
            r.spec_period() == period,
            match duration_periods {
                None => r.spec_timer() is None,
                Some(n) => r.spec_timer() matches Some(t) && t.spec_start() == Some(start)
                    && t.spec_duration() == period * n,
            },
    {
        let timer = match duration_periods {
            None => None,
            Some(duration_periods) => Some(Timer::new_set(start, period * duration_periods as u64)),
        };
        Self { start, period, timer }
    }

    /// Whether the animation shows the highlighted color at time `now`:
    /// it does during every even period, until the optional timer expires.
    pub open spec fn spec_highlighted(self, now: Time) -> bool {
        &&& !match self.spec_timer() {
            None => false,
            Some(t) => match t.spec_start() {
                None => true,
                Some(s) => Timer::spec_expired(s, t.spec_duration(), now),
            },
        }
        &&& ((now.v - self.spec_start().v) / (self.spec_period() as int)) % 2 == 0
    }

    /// The state of the blink at time `now`; the caller draws the element
    /// highlighted or plain accordingly.
    pub fn is_highlighted(&self, now: Time) -> (r: bool)
        requires
            now.v >= self.spec_start().v,
            self.spec_period() > 0,
            self.spec_timer() matches Some(t) ==> (t.spec_start() matches Some(s) ==> now.v
                >= s.v),
        ensures
            r == self.spec_highlighted(now),
    {
        let expired = match &self.timer {
            None => false,
            Some(timer) => timer.is_expired_or_unset(now),
        };
        if expired {
            false
        } else {
            let elapsed = now.v - self.start.v;
            (elapsed / self.period) % 2 == 0
        }
    }
}

} // verus!
