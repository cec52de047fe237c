//! The monotonic clock and durations, as std provides them.
use vstd::prelude::*;

use std::time::{Duration, Instant, SystemTime};

verus! {

#[verifier::external_type_specification]
#[verifier::external_body]
pub struct ExInstant(Instant);

/// `Instant::now`.
#[verifier::external_body]
pub(crate) fn instant_now() -> Instant {
    Instant::now()
}

#[verifier::external_type_specification]
#[verifier::external_body]
pub struct ExSystemTime(SystemTime);

/// What `Duration::from_secs(n)` gives.
pub uninterp spec fn from_secs(n: u64) -> Duration;

/// What `base.checked_add(wait)` gives: `base` moved on by `wait`, or
/// `None` past the clock's range.
pub uninterp spec fn checked_after(base: Instant, wait: Duration) -> Option<Instant>;

/// `Duration::from_secs`: `n` whole seconds.
#[verifier::external_body]
pub(crate) fn seconds(n: u64) -> (d: Duration)
    ensures
        d == from_secs(n),
        duration_nanos(d) == n as u128 * 1_000_000_000,
{
    Duration::from_secs(n)
}

/// `Instant::checked_add`: `None` past the clock's range. Its result
/// depends on the two arguments alone.
#[verifier::external_body]
pub(crate) fn instant_after(base: Instant, wait: Duration) -> (r: Option<Instant>)
    ensures
        r == checked_after(base, wait),
{
    base.checked_add(wait)
}

/// `SystemTime::now`: the wall clock. Nothing is claimed of which time it
/// reads.
#[verifier::external_body]
pub(crate) fn system_now() -> SystemTime {
    SystemTime::now()
}

/// `SystemTime::duration_since` from `UNIX_EPOCH`: `None` for a time
/// before the epoch. Nothing is claimed of the time itself.
#[verifier::external_body]
pub(crate) fn since_epoch(t: SystemTime) -> Option<Duration> {
    t.duration_since(std::time::UNIX_EPOCH).ok()
}

/// `Duration::as_millis`: the whole milliseconds in `d`, that is its
/// nanoseconds divided by a million, rounded down.
#[verifier::external_body]
pub(crate) fn millis(d: Duration) -> (ms: u128)
    ensures
        ms == duration_nanos(d) / 1_000_000,
{
    d.as_millis()
}

/// What `later.saturating_duration_since(earlier)` gives: the time from
/// `earlier` to `later`, zero when `later` is not after it.
pub uninterp spec fn saturating_since(later: Instant, earlier: Instant) -> Duration;

/// What `d.as_nanos()` gives: the whole duration in nanoseconds.
pub uninterp spec fn duration_nanos(d: Duration) -> u128;

/// The nanoseconds from `earlier` to `later`, zero when `later` is not
/// after it.
pub open spec fn nanos_between(later: Instant, earlier: Instant) -> u128 {
    duration_nanos(saturating_since(later, earlier))
}

/// `Instant::saturating_duration_since`: how long from `now` to `deadline`,
/// zero once it has passed. Its result depends on the two instants alone.
#[verifier::external_body]
pub(crate) fn left_until(deadline: Instant, now: Instant) -> (d: Duration)
    ensures
        d == saturating_since(deadline, now),
{
    deadline.saturating_duration_since(now)
}

/// `Duration::as_nanos`: the duration's length in nanoseconds.
#[verifier::external_body]
pub(crate) fn nanos(d: Duration) -> (n: u128)
    ensures
        n == duration_nanos(d),
{
    d.as_nanos()
}

} // verus!
