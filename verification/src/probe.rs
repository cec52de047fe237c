//! How a latency measurement turns out, from what its requests did.
use vstd::prelude::*;

verus! {

#[derive(Debug, PartialEq, Eq)]
pub enum ProbeError {
    /// The tunnel never carried the request: refused, unresolvable, or the
    /// proxy failed to reach the target.
    Unreachable,
    /// It carried it, but nothing came back in time.
    Timeout,
}

/// What one request through the tunnel did.
#[derive(Debug, Clone, Copy, PartialEq, Eq)]
pub enum Attempt {
    Answered,
    Failed,
    TimedOut,
}

/// The error an attempt stands for, if it failed.
pub fn attempt_error(attempt: Attempt) -> (r: Option<ProbeError>)
    ensures
        attempt is Answered ==> r is None,
        attempt is Failed ==> r matches Some(ProbeError::Unreachable),
        attempt is TimedOut ==> r matches Some(ProbeError::Timeout),
{
    match attempt {
        Attempt::Answered => None,
        Attempt::Failed => Some(ProbeError::Unreachable),
        Attempt::TimedOut => Some(ProbeError::Timeout),
    }
}

/// Elapsed milliseconds as reported, capped at `u32::MAX`.
pub fn clamp_millis(ms: u128) -> (r: u32)
    ensures
        r == (if ms > u32::MAX as u128 {
            u32::MAX as int
        } else {
            ms as int
        }),
{
    if ms > 0xffff_ffff {
        0xffff_ffff
    } else {
        ms as u32
    }
}

/// The round trip of a measurement: the request is sent twice over one
/// kept-alive connection and the second is timed, so the handshakes paid by
/// the warm-up stay out of the result. A failed warm-up decides the outcome
/// before the timed request is sent.
pub fn rtt_outcome(warm_up: Attempt, timed: Attempt, elapsed_ms: u128) -> (r: Result<u32, ProbeError>)
    ensures
        warm_up is Failed ==> r matches Err(ProbeError::Unreachable),
        warm_up is TimedOut ==> r matches Err(ProbeError::Timeout),
        warm_up is Answered && timed is Failed ==> r matches Err(ProbeError::Unreachable),
        warm_up is Answered && timed is TimedOut ==> r matches Err(ProbeError::Timeout),
        warm_up is Answered && timed is Answered ==> r == Ok::<u32, ProbeError>(
            clamp_millis_spec(elapsed_ms),
        ),
{
    if let Some(e) = attempt_error(warm_up) {
        return Err(e);
    }
    if let Some(e) = attempt_error(timed) {
        return Err(e);
    }
    Ok(clamp_millis(elapsed_ms))
}

/// Elapsed milliseconds, capped at `u32::MAX`.
pub open spec fn clamp_millis_spec(ms: u128) -> u32 {
    if ms > u32::MAX as u128 {
        u32::MAX
    } else {
        ms as u32
    }
}

} // verus!
