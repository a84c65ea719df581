use sindri::poller::{
    poll_step, run_poll_schedule, JobStatus, PollOutcome, PollStep, PollingOptions,
};

#[test]
fn test_poller_terminal_convergence() {
    let statuses = vec![JobStatus::InProgress, JobStatus::InProgress, JobStatus::Ready];
    let opts = PollingOptions { interval: 1000, timeout: Some(600000) };
    let run = run_poll_schedule(&statuses, &opts);

    assert_eq!(run.outcome, PollOutcome::Completed(JobStatus::Ready));
    assert_eq!(run.polls, 3);
    assert_eq!(run.waited_ms, 2000);
}

#[test]
fn test_poller_failed_is_terminal() {
    let statuses = vec![JobStatus::Queued, JobStatus::Failed, JobStatus::Ready];
    let opts = PollingOptions::default();
    let run = run_poll_schedule(&statuses, &opts);
    assert_eq!(run.outcome, PollOutcome::Completed(JobStatus::Failed));
    assert_eq!(run.polls, 2);
}

#[test]
fn test_poller_timeout() {
    let statuses = vec![JobStatus::InProgress; 10];
    let opts = PollingOptions { interval: 1000, timeout: Some(2500) };
    let run = run_poll_schedule(&statuses, &opts);

    assert_eq!(run.outcome, PollOutcome::TimedOut);
    assert!(run.waited_ms > 2500);
    assert!(run.waited_ms <= 3500);
    assert_eq!(run.polls, 4);
}

#[test]
fn test_poller_no_timeout_runs_on() {
    let statuses = vec![
        JobStatus::Queued,
        JobStatus::Queued,
        JobStatus::Queued,
        JobStatus::Queued,
        JobStatus::Ready,
    ];
    let opts = PollingOptions { interval: 10, timeout: None };
    let run = run_poll_schedule(&statuses, &opts);
    assert_eq!(run.outcome, PollOutcome::Completed(JobStatus::Ready));
    assert_eq!(run.polls, 5);
    assert_eq!(run.waited_ms, 40);
}

#[test]
fn test_poller_unresolved_when_schedule_ends() {
    let statuses = vec![JobStatus::InProgress, JobStatus::InProgress];
    let opts = PollingOptions { interval: 1000, timeout: None };
    let run = run_poll_schedule(&statuses, &opts);
    assert_eq!(run.outcome, PollOutcome::Unresolved);
    assert_eq!(run.polls, 2);
}

#[test]
fn test_poll_step_decisions() {
    let opts = PollingOptions { interval: 1000, timeout: Some(5000) };
    assert_eq!(poll_step(JobStatus::Ready, 0, &opts), PollStep::Done(JobStatus::Ready));
    assert_eq!(poll_step(JobStatus::Failed, 9999, &opts), PollStep::Done(JobStatus::Failed));
    assert_eq!(poll_step(JobStatus::InProgress, 5000, &opts), PollStep::Sleep);
    assert_eq!(poll_step(JobStatus::InProgress, 5001, &opts), PollStep::TimedOut);
    let no_timeout = PollingOptions { interval: 1000, timeout: None };
    assert_eq!(poll_step(JobStatus::Queued, u64::MAX, &no_timeout), PollStep::Sleep);
}

#[test]
fn test_polling_options_default() {
    let opts = PollingOptions::default();
    assert_eq!(opts.interval, 1000);
    assert_eq!(opts.timeout, Some(600000));
}
