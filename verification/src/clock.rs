//! The monotonic clock, as the session store and the uptime clock read it.
use std::time::{Duration, Instant, SystemTime};

use vstd::prelude::*;

verus! {

/// A point on the monotonic clock.
#[verifier::external_type_specification]
#[verifier::external_body]
pub struct ExInstant(Instant);

/// `Instant` is `Copy`: a clone is the same instant.
pub assume_specification[ <Instant as Clone>::clone ](i: &Instant) -> (r: Instant)
    ensures
        r == *i,
;

/// `Duration` is `Copy`: a clone is the same duration.
pub assume_specification[ <Duration as Clone>::clone ](d: &Duration) -> (r: Duration)
    ensures
        r == *d,
;

/// A point on the wall clock.
#[verifier::external_type_specification]
#[verifier::external_body]
pub struct ExSystemTime(SystemTime);

/// Reads the wall clock (`SystemTime::now`); nothing is known of the reading.
#[verifier::external_body]
pub(crate) fn system_now() -> SystemTime {
    SystemTime::now()
}

/// How long after the Unix epoch `t` is (`SystemTime::duration_since`),
/// `None` for a time before it; the clock is opaque here, so nothing more is stated.
#[verifier::external_body]
pub(crate) fn since_unix_epoch(t: &SystemTime) -> Option<Duration> {
    t.duration_since(SystemTime::UNIX_EPOCH).ok()
}

/// The whole seconds of `d` (`Duration::as_secs`). A `Duration` is opaque
/// here, so the figure is not tied to it.
#[verifier::external_body]
pub(crate) fn duration_secs(d: &Duration) -> u64 {
    d.as_secs()
}

/// Reads the monotonic clock (`Instant::now`); nothing is known of the reading.
#[verifier::external_body]
pub(crate) fn instant_now() -> Instant {
    Instant::now()
}

/// How long ago `start` was on the monotonic clock (`Instant::elapsed`);
/// it depends on when it is asked, so nothing is stated of it.
#[verifier::external_body]
pub(crate) fn instant_elapsed(start: &Instant) -> Duration {
    start.elapsed()
}

/// The length of a duration in whole nanoseconds, as `Duration::as_nanos`
/// gives it: a function of the duration alone.
pub uninterp spec fn duration_ns(d: Duration) -> u128;

/// The length of `d` in whole nanoseconds (`Duration::as_nanos`), which is
/// the full precision of a `Duration`.
#[verifier::external_body]
pub(crate) fn duration_nanos(d: &Duration) -> (r: u128)
    ensures
        r == duration_ns(*d),
{
    d.as_nanos()
}

/// Whole nanoseconds elapsed on the monotonic clock since `anchor`.
pub(crate) fn nanos_since(anchor: &Instant) -> u128 {
    let d = instant_elapsed(anchor);
    duration_nanos(&d)
}

} // verus!
