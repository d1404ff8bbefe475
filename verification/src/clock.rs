//! Time and timers: the instant type of std, the timer future of
//! `tokio_timer`, names for what the calls into them return, and the calls.

use std::time::{Duration, Instant};
use tokio_timer::Delay;
use vstd::prelude::*;

verus! {

#[verifier::external_type_specification]
#[verifier::external_body]
pub struct ExInstant(Instant);

#[verifier::external_type_specification]
#[verifier::external_body]
pub struct ExDelay(Delay);

/// What `std::time::Instant::checked_add` returns for `start` and `d`: the
/// instant `d` after `start`, or `None` where the platform cannot represent
/// it.
pub uninterp spec fn instant_checked_add(start: Instant, d: Duration) -> Option<Instant>;

/// The instant at which the timer future `d` completes, as
/// `tokio_timer::Delay::deadline` returns it.
pub uninterp spec fn delay_deadline(d: Delay) -> Instant;

/// Why an operation under a timeout failed.
#[derive(Debug, Clone, Copy, PartialEq, Eq, Structural)]
pub enum TimeoutError {
    /// The operation did not complete before its countdown ran out.
    TimedOut,
}

/// Calls `std::time::Instant::now`. The result depends on the clock, so
/// nothing is promised of it.
#[verifier::external_body]
pub(crate) fn now() -> (at: Instant) {
    Instant::now()
}

/// Calls `std::time::Instant::checked_add`, whose result is named
/// `instant_checked_add`.
#[verifier::external_body]
pub(crate) fn instant_after(start: Instant, d: Duration) -> (at: Option<Instant>)
    ensures
        at == instant_checked_add(start, d),
{
    start.checked_add(d)
}

/// Calls `tokio_timer::delay`: a timer future whose deadline is `deadline`
/// (the registration it makes stores that deadline).
#[verifier::external_body]
pub(crate) fn delay_until(deadline: Instant) -> (d: Delay)
    ensures
        delay_deadline(d) == deadline,
{
    tokio_timer::delay(deadline)
}

/// Calls `tokio_timer::Delay::reset`, which stores `deadline` as the
/// deadline of `d`.
#[verifier::external_body]
pub(crate) fn reset_delay(d: &mut Delay, deadline: Instant)
    ensures
        delay_deadline(*final(d)) == deadline,
{
    d.reset(deadline)
}

} // verus!
