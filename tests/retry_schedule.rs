use smithy_runtime::dispatch::{finish, next_step, run_scripted, Attempt, RetryState, SdkError, Step};
use smithy_runtime::retry::{classify, ErrorKind, RetryConfig, RetryKind, MAX_BACKOFF_MS};

fn retryable(n: u32) -> Attempt<u32, u32> {
    Attempt::Parsed { result: Err(n), verdict: RetryKind::Error(ErrorKind::TransientError) }
}

fn success(v: u32) -> Attempt<u32, u32> {
    Attempt::Parsed { result: Ok(v), verdict: RetryKind::Unnecessary }
}

#[test]
fn standard_config_values() {
    let c = RetryConfig::standard();
    assert_eq!(c.max_attempts, 3);
    assert_eq!(c.initial_backoff_ms, 1000);
    assert_eq!(c.base_millis, 2000);
}

#[test]
fn backoff_grows_by_base() {
    let c = RetryConfig::standard().with_initial_backoff(1000);
    assert_eq!(c.backoff_ms(1), 0);
    assert_eq!(c.backoff_ms(2), 1000);
    assert_eq!(c.backoff_ms(3), 2000);
    assert_eq!(c.backoff_ms(4), 4000);
    assert_eq!(c.backoff_ms(5), 8000);
}

#[test]
fn backoff_with_fractional_base() {
    let c = RetryConfig::standard().with_initial_backoff(1000).with_base(1500);
    assert_eq!(c.backoff_ms(2), 1000);
    assert_eq!(c.backoff_ms(3), 1500);
    assert_eq!(c.backoff_ms(4), 2250);
}

#[test]
fn backoff_constant_with_unit_base() {
    let c = RetryConfig::standard().with_initial_backoff(1000).with_base(1000);
    for attempt in 2..20 {
        assert_eq!(c.backoff_ms(attempt), 1000);
    }
}

#[test]
fn backoff_saturates() {
    let c = RetryConfig::standard().with_initial_backoff(u64::MAX / 2).with_base(4000);
    assert_eq!(c.backoff_ms(3), MAX_BACKOFF_MS);
    assert_eq!(c.backoff_ms(40), MAX_BACKOFF_MS);
}

#[test]
fn classify_follows_the_result() {
    let ok: Result<u8, (u8, Option<ErrorKind>)> = Ok(1);
    assert_eq!(classify(&ok), RetryKind::Unnecessary);
    let kinded: Result<u8, (u8, Option<ErrorKind>)> = Err((1, Some(ErrorKind::ServerError)));
    assert_eq!(classify(&kinded), RetryKind::Error(ErrorKind::ServerError));
    let plain: Result<u8, (u8, Option<ErrorKind>)> = Err((1, None));
    assert_eq!(classify(&plain), RetryKind::UnretryableFailure);
}

#[test]
fn always_retryable_sends_max_attempts() {
    let config = RetryConfig::standard().with_max_attempts(4).with_initial_backoff(10);
    let script = vec![retryable(1), retryable(2), retryable(3), retryable(4), success(5)];
    let report = run_scripted(&config, script);
    assert_eq!(report.sends, 4);
    assert_eq!(report.waits, vec![10, 20, 40]);
    assert!(matches!(report.result, Err(SdkError::ServiceError(4))));
}

#[test]
fn success_after_two_retries() {
    let config = RetryConfig::standard().with_max_attempts(5).with_initial_backoff(10);
    let report = run_scripted(&config, vec![retryable(1), retryable(2), success(7)]);
    assert_eq!(report.sends, 3);
    assert_eq!(report.waits, vec![10, 20]);
    assert_eq!(report.waits.iter().sum::<u64>(), 30);
    assert!(matches!(report.result, Ok(7)));
}

#[test]
fn unnecessary_first_attempt() {
    let config = RetryConfig::standard();
    let report = run_scripted(&config, vec![success(3), retryable(1)]);
    assert_eq!(report.sends, 1);
    assert!(report.waits.is_empty());
    assert!(matches!(report.result, Ok(3)));
}

#[test]
fn explicit_delay_overrides_schedule() {
    let config = RetryConfig::standard();
    let explicit: Attempt<u32, u32> = Attempt::Parsed { result: Err(0), verdict: RetryKind::Explicit(123) };
    let report = run_scripted(&config, vec![explicit, success(1)]);
    assert_eq!(report.waits, vec![123]);
    assert_eq!(report.sends, 2);
}

#[test]
fn transient_dispatch_and_timeouts_retry() {
    let config = RetryConfig::standard().with_max_attempts(3).with_initial_backoff(5);
    let script: Vec<Attempt<u32, u32>> =
        vec![Attempt::DispatchFailed { transient: true }, Attempt::TimedOut, Attempt::TimedOut];
    let report = run_scripted(&config, script);
    assert_eq!(report.sends, 3);
    assert_eq!(report.waits, vec![5, 10]);
    assert!(matches!(report.result, Err(SdkError::TimeoutError)));
}

#[test]
fn terminal_failures_are_not_retried() {
    let config = RetryConfig::standard();
    let cases: Vec<(Attempt<u32, u32>, fn(&Result<u32, SdkError<u32>>) -> bool)> = vec![
        (Attempt::ConstructionFailed, |r| matches!(r, Err(SdkError::ConstructionFailure))),
        (Attempt::DispatchFailed { transient: false }, |r| matches!(r, Err(SdkError::DispatchFailure))),
        (Attempt::Unparseable, |r| matches!(r, Err(SdkError::ResponseError))),
        (
            Attempt::Parsed { result: Err(9), verdict: RetryKind::UnretryableFailure },
            |r| matches!(r, Err(SdkError::ServiceError(9))),
        ),
    ];
    for (attempt, check) in cases {
        let report = run_scripted(&config, vec![attempt, success(1)]);
        assert_eq!(report.sends, 1);
        assert!(report.waits.is_empty());
        assert!(check(&report.result));
    }
}

#[test]
fn empty_script_fails_dispatch() {
    let report = run_scripted::<u32, u32>(&RetryConfig::standard(), vec![]);
    assert_eq!(report.sends, 1);
    assert!(matches!(report.result, Err(SdkError::DispatchFailure)));
}

#[test]
fn next_step_on_last_attempt_stops() {
    let config = RetryConfig::standard();
    assert_eq!(next_step(&config, 3, &retryable(1)), Step::Stop);
    assert_eq!(next_step(&config, 2, &retryable(1)), Step::Retry { delay_ms: 2000 });
    assert_eq!(next_step(&config, 1, &success(1)), Step::Stop);
}

#[test]
fn retry_state_counts_attempts() {
    let mut state = RetryState::new(RetryConfig::standard());
    assert_eq!(state.on_outcome(&retryable(1)), Step::Retry { delay_ms: 1000 });
    assert_eq!(state.attempt, 2);
    assert_eq!(state.on_outcome(&retryable(1)), Step::Retry { delay_ms: 2000 });
    assert_eq!(state.on_outcome(&retryable(1)), Step::Stop);
    assert_eq!(state.attempt, 3);
}

#[test]
fn finish_maps_each_outcome() {
    assert!(matches!(finish(success(4)), Ok(4)));
    assert!(matches!(finish(retryable(4)), Err(SdkError::ServiceError(4))));
    assert!(matches!(finish::<u32, u32>(Attempt::TimedOut), Err(SdkError::TimeoutError)));
}
