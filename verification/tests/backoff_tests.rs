use grpc_logger::backoff::{backoff_delay_ms, secs_to_ms, RetryDecision, RetryState};

#[test]
fn delays_grow_by_three_halves() {
    assert_eq!(backoff_delay_ms(1000, 1), 1500);
    assert_eq!(backoff_delay_ms(1000, 2), 2250);
    assert_eq!(backoff_delay_ms(1000, 3), 3375);
    assert_eq!(backoff_delay_ms(1000, 4), 5062);
}

#[test]
fn attempt_zero_waits_the_base_delay() {
    assert_eq!(backoff_delay_ms(1000, 0), 1000);
    assert_eq!(backoff_delay_ms(7, 0), 7);
}

#[test]
fn two_second_base_matches_the_standalone_client() {
    assert_eq!(backoff_delay_ms(2000, 1), 3000);
    assert_eq!(backoff_delay_ms(2000, 2), 4500);
}

#[test]
fn zero_base_never_waits() {
    assert_eq!(backoff_delay_ms(0, 0), 0);
    assert_eq!(backoff_delay_ms(0, 17), 0);
    assert_eq!(backoff_delay_ms(0, 5000), 0);
}

#[test]
fn huge_delays_saturate() {
    assert_eq!(backoff_delay_ms(u64::MAX, 1), u64::MAX);
    assert_eq!(backoff_delay_ms(1000, 5000), u64::MAX);
}

#[test]
fn seconds_convert_to_milliseconds_and_saturate() {
    assert_eq!(secs_to_ms(0), 0);
    assert_eq!(secs_to_ms(2), 2000);
    assert_eq!(secs_to_ms(u64::MAX), u64::MAX);
}

#[test]
fn retries_stop_after_the_ceiling() {
    let mut state = RetryState::new();
    let max_retries = 3;
    let base_ms = 1000;

    assert_eq!(
        state.on_connect_failure(max_retries, base_ms),
        RetryDecision::Wait { delay_ms: 1500 }
    );
    assert_eq!(
        state.on_connect_failure(max_retries, base_ms),
        RetryDecision::Wait { delay_ms: 2250 }
    );
    assert_eq!(
        state.on_connect_failure(max_retries, base_ms),
        RetryDecision::Wait { delay_ms: 3375 }
    );
    // the ceiling: the caller surfaces the last error, no further attempt
    assert_eq!(
        state.on_connect_failure(max_retries, base_ms),
        RetryDecision::GiveUp
    );
    assert_eq!(
        state.on_connect_failure(max_retries, base_ms),
        RetryDecision::GiveUp
    );
}

#[test]
fn success_resets_the_failure_count() {
    let mut state = RetryState::new();
    state.on_connect_failure(10, 1000);
    state.on_connect_failure(10, 1000);
    state.on_connected();
    assert_eq!(state.attempts_failed, 0);
    assert_eq!(
        state.on_connect_failure(10, 1000),
        RetryDecision::Wait { delay_ms: 1500 }
    );
}

#[test]
fn a_dropped_stream_waits_flat_and_starts_over() {
    let mut state = RetryState::new();
    state.on_connect_failure(10, 1000);
    state.on_connect_failure(10, 1000);
    let wait = state.on_stream_drop(2000);
    assert_eq!(wait, 2000);
    assert_eq!(state.attempts_failed, 0);
    // the next connect-with-retry sequence begins at attempt one again
    assert_eq!(
        state.on_connect_failure(10, 1000),
        RetryDecision::Wait { delay_ms: 1500 }
    );
}

#[test]
fn zero_ceiling_gives_up_at_once() {
    let mut state = RetryState::new();
    assert_eq!(state.on_connect_failure(0, 1000), RetryDecision::GiveUp);
}
