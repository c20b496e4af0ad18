//! Frame pacing: how long to sleep, and what to make of a sleep that took
//! too long. Times are in nanoseconds.

use vstd::prelude::*;

verus! {

/// A sleep went wrong.
#[derive(Clone, Copy, Debug, PartialEq, Eq, Structural)]
pub enum SleepError {
    /// The sleep took longer than it was to take, by the time given.
    TargetDurationExceeded(u128),
}

/// By how much the tolerance grows when a sleep took too long: 100
/// microseconds.
pub const TOLERANCE_STEP: u128 = 100_000;

/// The time to hand to the system's sleep for a pause of `duration`, when
/// sleeps are known to overrun by `tolerance`: the difference of the two
/// where the tolerance is the smaller one, and `None`, for a pause that is
/// best spent waiting, where it is not.
pub fn sleep_budget(duration: u128, tolerance: u128) -> (budget: Option<u128>)
    ensures
        budget is Some <==> tolerance < duration,
        budget matches Some(b) ==> b == duration - tolerance,
{
    if tolerance < duration {
        Some(duration - tolerance)
    } else {
        None
    }
}

/// What follows from a sleep for a pause of `duration` after which
/// `elapsed` has gone by: the tolerance from now on, and whether the pause
/// has failed.
///
/// A sleep that ends in time leaves the tolerance as it is, and the rest of
/// the pause is waited out. One that ends late fails with the overrun, and
/// the tolerance grows by `TOLERANCE_STEP` as far as a `u128` holds it.
pub fn after_sleep(duration: u128, tolerance: u128, elapsed: u128) -> (outcome: (
    u128,
    Result<(), SleepError>,
))
    ensures
        elapsed <= duration ==> outcome == (tolerance, Ok::<(), SleepError>(())),
        elapsed > duration ==> outcome.1 == Err::<(), SleepError>(
            SleepError::TargetDurationExceeded((elapsed - duration) as u128),
        ),
        elapsed > duration ==> outcome.0 == if tolerance + TOLERANCE_STEP <= u128::MAX {
            (tolerance + TOLERANCE_STEP) as u128
        } else {
            u128::MAX
        },
{
    if elapsed > duration {
        (
            tolerance.saturating_add(TOLERANCE_STEP),
            Err(SleepError::TargetDurationExceeded(elapsed - duration)),
        )
    } else {
        (tolerance, Ok(()))
    }
}

impl SleepError {
    /// The time by which the sleep overran.
    pub fn overrun(&self) -> (overrun: u128)
        ensures
            self == SleepError::TargetDurationExceeded(overrun),
    {
        match self {
            SleepError::TargetDurationExceeded(overrun) => *overrun,
        }
    }
}

} // verus!
