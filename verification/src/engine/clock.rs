//! A clock that is told the time: the time between its last two ticks and
//! the time since the last one. Times are in nanoseconds on a scale that
//! never runs backwards.

use vstd::prelude::*;

verus! {

/// The time between two instants, and zero where the later one is not
/// later.
pub open spec fn time_between(earlier: u128, later: u128) -> u128 {
    if later >= earlier {
        (later - earlier) as u128
    } else {
        0
    }
}

/// Remembers its last tick and the time between the last two.
pub struct Clock {
    delta: u128,
    start: Option<u128>,
}

impl Default for Clock {
    /// A clock that has not ticked yet.
    fn default() -> (clock: Self)
        ensures
            clock.delta() == 0,
            clock.last_tick() is None,
    {
        Self { delta: 0, start: None }
    }
}

impl Clock {
    /// The time between the last two ticks; zero before the second tick.
    pub closed spec fn spec_delta(&self) -> u128 {
        self.delta
    }

    /// The time of the last tick.
    pub closed spec fn last_tick(&self) -> Option<u128> {
        self.start
    }

    /// The time between the last two ticks; zero before the second tick.
    #[verifier::when_used_as_spec(spec_delta)]
    pub fn delta(&self) -> (delta: u128)
        ensures
            delta == self.spec_delta(),
    {
        self.delta
    }

    /// The time from the last tick to `now`; zero before the first tick.
    pub fn elapsed(&self, now: u128) -> (elapsed: u128)
        ensures
            elapsed == match self.last_tick() {
                Some(start) => time_between(start, now),
                None => 0,
            },
    {
        match self.start {
            Some(start) => now.saturating_sub(start),
            None => 0,
        }
    }

    /// Ticks at the time `now`.
    pub fn tick(&mut self, now: u128)
        ensures
            final(self).last_tick() == Some(now),
            final(self).delta() == match old(self).last_tick() {
                Some(start) => time_between(start, now),
                None => old(self).delta(),
            },
    {
        let end = now;
        if let Some(start) = self.start {
            self.delta = end.saturating_sub(start);
        }
        self.start = Some(end);
    }
}

} // verus!
