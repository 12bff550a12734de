//! Time keeping for the tick driver and for timers: instants are modelled
//! as whole nanoseconds, so that all timer arithmetic is verified.

use vstd::prelude::*;

verus! {

/// A point in time, as nanoseconds since some fixed anchor.
#[derive(Debug, Copy, Clone, Eq, PartialEq, Structural)]
pub struct Time {
    pub v: u64,
}

impl Time {
    pub fn new(v: u64) -> (r: Self)
        ensures
            r.v == v,
    {
        Self { v }
    }
}

#[verifier::external_type_specification]
#[verifier::external_body]
pub struct ExInstant(std::time::Instant);

/// Relies on `std::time::Instant::now`: an opaque anchor for later
/// elapsed-time readings. The value depends on the wall clock, so nothing
/// is promised of it.
#[verifier::external_body]
pub(crate) fn instant_now() -> std::time::Instant {
    std::time::Instant::now()
}

/// Relies on `std::time::Instant::elapsed`: the time since the anchor was
/// created, here converted to whole nanoseconds. The reading depends on
/// the wall clock, so nothing is promised of the value.
#[verifier::external_body]
pub(crate) fn elapsed_nanos(start: &std::time::Instant) -> u64 {
    start.elapsed().as_nanos() as u64
}

/// A clock that stands still between explicit advances: each advance moves
/// `now` to the real time elapsed since the clock was created.
#[derive(Debug)]
pub struct AdvanceableClock {
    start: std::time::Instant,
    now: Time,
}

impl AdvanceableClock {
    pub closed spec fn spec_now(self) -> Time {
        self.now
    }

    pub closed spec fn spec_anchor(self) -> std::time::Instant {
        self.start
    }

    pub fn new(start: std::time::Instant) -> (r: Self)
        ensures
            r.spec_now() == (Time { v: 0 }),
            r.spec_anchor() == start,
    {
        Self { start, now: Time::new(0) }
    }

    /// Moves `now` to the real time elapsed since the anchor; the reading
    /// comes from the wall clock, so only the anchor is promised to be kept.
    pub fn advance_to_real_now(&mut self)
        ensures
            final(self).spec_anchor() == old(self).spec_anchor(),
    {
        self.now = Time::new(elapsed_nanos(&self.start));
    }

    pub fn now(&self) -> (r: Time)
        ensures
            r == self.spec_now(),
    {
        self.now
    }
}

/// A one-shot timer: once set, it expires when the given duration (in
/// nanoseconds) has passed since its start time.
#[derive(Debug, Copy, Clone, Eq, PartialEq, Structural)]
pub struct Timer {
    start: Option<Time>,
    duration: u64,
}

impl Timer {
    pub closed spec fn spec_start(self) -> Option<Time> {
        self.start
    }

    pub closed spec fn spec_duration(self) -> u64 {
        self.duration
    }

    /// Whether a timer started at `start` with the given duration has
    /// expired at time `t`.
    pub open spec fn spec_expired(start: Time, duration: u64, t: Time) -> bool {
        t.v - start.v >= duration
    }

    pub fn new() -> (r: Self)
        ensures
            r.spec_start() is None,
            r.spec_duration() == 0,
    {
        Self { start: None, duration: 0 }
    }

    pub fn new_set(start: Time, duration: u64) -> (r: Self)
        ensures
            r.spec_start() == Some(start),
            r.spec_duration() == duration,
    {
        Self { start: Some(start), duration }
    }

    pub fn is_expired_or_unset(&self, t: Time) -> (r: bool)
        requires
            self.spec_start() matches Some(start) ==> t.v >= start.v,
        ensures
            r == match self.spec_start() {
                None => true,
                Some(start) => Timer::spec_expired(start, self.spec_duration(), t),
            },
    {
        match self.start {
            None => true,
            Some(start) => Timer::is_expired(start, self.duration, t),
        }
    }

    /// Polls the timer at time `t`: an expired timer is unset and reported;
    /// an unset timer is started with a freshly computed duration.
    pub fn check_expired_then_unset_if_true_or_set_if_unset<F>(&mut self, t: Time, duration: F)
        -> (r: bool) where F: FnOnce() -> u64
        requires
            old(self).spec_start() matches Some(start) ==> t.v >= start.v,
            old(self).spec_start() is None ==> call_requires(duration, ()),
        ensures
            match old(self).spec_start() {
                Some(start) => {
                    if Timer::spec_expired(start, old(self).spec_duration(), t) {
                        r && final(self).spec_start() is None
                            && final(self).spec_duration() == old(self).spec_duration()
                    } else {
                        !r && *final(self) == *old(self)
                    }
                },
                None => !r && final(self).spec_start() == Some(t)
                    && call_ensures(duration, (), final(self).spec_duration()),
            },
    {
        match self.start {
            Some(start) => {
                if Timer::is_expired(start, self.duration, t) {
                    self.unset();
                    true
                } else {
                    false
                }
            },
            None => {
                let d = duration();
                self.set(t, d);
                false
            },
        }
    }

    pub fn set(&mut self, start: Time, duration: u64)
        ensures
            final(self).spec_start() == Some(start),
            final(self).spec_duration() == duration,
    {
        self.start = Some(start);
        self.duration = duration;
    }

    pub fn unset(&mut self)
        ensures
            final(self).spec_start() is None,
            final(self).spec_duration() == old(self).spec_duration(),
    {
        self.start = None;
    }

    pub fn set_duration(&mut self, duration: u64)
        ensures
            final(self).spec_start() == old(self).spec_start(),
            final(self).spec_duration() == duration,
    {
        self.duration = duration;
    }

    fn is_expired(start: Time, duration: u64, t: Time) -> (r: bool)
        requires
            t.v >= start.v,
        ensures
            r == Timer::spec_expired(start, duration, t),
    {
        t.v - start.v >= duration
    }
}

} // verus!
