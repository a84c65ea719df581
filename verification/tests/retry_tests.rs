use sindri::retry::{
    backoff_delay, retry_client, run_retry, CallOutcome, Retry500, RetryVerdict, Retryable,
};

#[test]
fn test_fatal_code_classification() {
    let strategy = Retry500;
    let fatal_codes = [
        400, 401, 403, 404, 405, 406, 407, 408, 409, 410, 411, 412, 413, 414, 415, 416, 417, 418,
        421, 501, 505, 506, 510,
    ];
    for code in fatal_codes {
        assert_eq!(
            strategy.handle(&CallOutcome::Status(code)),
            Some(Retryable::Fatal),
            "code {} must be fatal",
            code
        );
    }
}

#[test]
fn test_transient_code_classification() {
    let strategy = Retry500;
    for code in [500, 502, 503, 504] {
        assert_eq!(strategy.handle(&CallOutcome::Status(code)), Some(Retryable::Transient));
    }
}

#[test]
fn test_passthrough_code_classification() {
    let strategy = Retry500;
    for code in [200, 201, 204, 301, 302, 402, 419, 422, 429, 507] {
        assert_eq!(strategy.handle(&CallOutcome::Status(code)), None, "code {} passes", code);
    }
}

#[test]
fn test_transport_error_classification() {
    let strategy = Retry500;
    assert_eq!(
        strategy.handle(&CallOutcome::TransportError { transient: true }),
        Some(Retryable::Transient)
    );
    assert_eq!(
        strategy.handle(&CallOutcome::TransportError { transient: false }),
        Some(Retryable::Fatal)
    );
}

#[test]
fn test_retry_client_defaults() {
    let policy = retry_client(None);
    assert_eq!(policy.min_delay_ms, 1000);
    assert_eq!(policy.max_delay_ms, 8000);
    assert_eq!(policy.budget_ms, 60000);

    let policy = retry_client(Some(15000));
    assert_eq!(policy.budget_ms, 15000);
}

#[test]
fn test_backoff_bounds() {
    let policy = retry_client(None);
    assert_eq!(backoff_delay(&policy, 0, 12345), 1000);
    assert_eq!(backoff_delay(&policy, 1, 500), 1500);
    assert_eq!(backoff_delay(&policy, 5, 7000), 8000);
    for attempt in 0..20 {
        for jitter in [0u64, 1, 999, 123456789] {
            let d = backoff_delay(&policy, attempt, jitter);
            assert!((1000..=8000).contains(&d));
        }
    }
}

#[test]
fn test_retry_policy_on_400() {
    let policy = retry_client(None);
    let outcomes = vec![CallOutcome::Status(400), CallOutcome::Status(200)];
    let jitters = vec![0, 0];
    let run = run_retry(&policy, &outcomes, &jitters);
    assert_eq!(run.attempts, 1);
    assert_eq!(run.verdict, RetryVerdict::FatalFailure);
    assert_eq!(run.total_delay_ms, 0);
}

#[test]
fn test_retry_policy_on_500() {
    let policy = retry_client(Some(15000));
    let outcomes = vec![CallOutcome::Status(500); 64];
    let jitters = vec![0u64; 64];
    let run = run_retry(&policy, &outcomes, &jitters);
    assert_eq!(run.verdict, RetryVerdict::BudgetExhausted);
    assert!(run.attempts > 3);
    assert!(run.total_delay_ms <= 15000);
}

#[test]
fn test_retry_passthrough_after_transients() {
    let policy = retry_client(None);
    let outcomes = vec![
        CallOutcome::Status(503),
        CallOutcome::TransportError { transient: true },
        CallOutcome::Status(302),
    ];
    let jitters = vec![0, 0, 0];
    let run = run_retry(&policy, &outcomes, &jitters);
    assert_eq!(run.verdict, RetryVerdict::Accepted);
    assert_eq!(run.attempts, 3);
    assert!(run.total_delay_ms >= 2000);
}
