use kagerou::probe::{clamp_millis, rtt_outcome, Attempt, ProbeError};

#[test]
fn only_the_second_request_is_timed() {
    assert_eq!(rtt_outcome(Attempt::Answered, Attempt::Answered, 53), Ok(53));
    assert_eq!(rtt_outcome(Attempt::Failed, Attempt::Answered, 53), Err(ProbeError::Unreachable));
    assert_eq!(rtt_outcome(Attempt::TimedOut, Attempt::Answered, 53), Err(ProbeError::Timeout));
    assert_eq!(rtt_outcome(Attempt::Answered, Attempt::Failed, 53), Err(ProbeError::Unreachable));
    assert_eq!(rtt_outcome(Attempt::Answered, Attempt::TimedOut, 53), Err(ProbeError::Timeout));
}

#[test]
fn an_enormous_duration_is_capped() {
    assert_eq!(clamp_millis(u128::MAX), u32::MAX);
    assert_eq!(clamp_millis(u32::MAX as u128 + 1), u32::MAX);
    assert_eq!(clamp_millis(7), 7);
}
