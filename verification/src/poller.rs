//! Asynchronous job poller: the submit / poll / fetch state machine that
//! tracks one remote job until it reaches a terminal status or the
//! caller's timeout elapses.

use vstd::prelude::*;

verus! {

/// Status of a remote job as the service reports it. `Ready` and
/// `Failed` are terminal; everything else counts as still running.
#[derive(Clone, Copy, Debug, PartialEq, Eq, Structural)]
pub enum JobStatus {
    Queued,
    InProgress,
    Ready,
    Failed,
}

/// A status from which no further transition occurs.
pub open spec fn is_terminal(s: JobStatus) -> bool {
    s == JobStatus::Ready || s == JobStatus::Failed
}

/// Whether a status is terminal.
pub fn status_is_terminal(s: JobStatus) -> (r: bool)
    ensures
        r == is_terminal(s),
{
    match s {
        JobStatus::Ready => true,
        JobStatus::Failed => true,
        _ => false,
    }
}

/// How a poll loop waits: `interval` milliseconds between consecutive
/// status checks, and an optional `timeout` in milliseconds on the
/// total wait, measured from the first status check.
#[derive(Clone, Copy, Debug, PartialEq, Eq, Structural)]
pub struct PollingOptions {
    pub interval: u64,
    pub timeout: Option<u64>,
}

impl Default for PollingOptions {
    /// One second between checks, giving up after ten minutes.
    fn default() -> (r: Self)
        ensures
            r.interval == 1000,
            r.timeout == Some(600000u64),
    {
        PollingOptions { interval: 1000, timeout: Some(600000) }
    }
}

/// What the poll loop does after observing one status.
#[derive(Clone, Copy, Debug, PartialEq, Eq, Structural)]
pub enum PollStep {
    /// The job reached this terminal status; fetch the detail and stop.
    Done(JobStatus),
    /// The timeout elapsed; stop without any further network call.
    TimedOut,
    /// Sleep for the poll interval, then check the status again.
    Sleep,
}

/// The poll decision as a pure function of the observed status, the
/// time waited so far, and the options: a terminal status ends the
/// loop; then the timeout is checked before any further call; only
/// otherwise does the loop sleep and poll again.
pub open spec fn spec_poll_step(status: JobStatus, elapsed_ms: u64, opts: PollingOptions) -> PollStep {
    if is_terminal(status) {
        PollStep::Done(status)
    } else if opts.timeout matches Some(t) && elapsed_ms > t {
        PollStep::TimedOut
    } else {
        PollStep::Sleep
    }
}

/// Decides one tick of the poll loop. The caller polls the status,
/// hands it in with the time waited so far, and on `Sleep` waits
/// `opts.interval` milliseconds before the next tick.
pub fn poll_step(status: JobStatus, elapsed_ms: u64, opts: &PollingOptions) -> (r: PollStep)
    ensures
        r == spec_poll_step(status, elapsed_ms, *opts),
{
    if status_is_terminal(status) {
        PollStep::Done(status)
    } else {
        match opts.timeout {
            Some(t) => {
                if elapsed_ms > t {
                    PollStep::TimedOut
                } else {
                    PollStep::Sleep
                }
            },
            None => PollStep::Sleep,
        }
    }
}

/// How one poll loop ended.
#[derive(Clone, Copy, Debug, PartialEq, Eq, Structural)]
pub enum PollOutcome {
    /// A terminal status was observed; the detail fetch may follow.
    Completed(JobStatus),
    /// The timeout elapsed before any terminal status; synthesized
    /// locally, never reported by the service.
    TimedOut,
    /// The given status sequence ran out while the job was still
    /// running and the timeout had not elapsed.
    Unresolved,
}

/// How one poll loop ran: its outcome, how many status checks it made,
/// and how long it waited between them in all.
#[derive(Clone, Copy, Debug, PartialEq, Eq, Structural)]
pub struct PollRun {
    pub outcome: PollOutcome,
    pub polls: usize,
    pub waited_ms: u64,
}

/// Replays the poll loop over a given sequence of observed statuses:
/// `statuses[i]` is what the service would report on the `i + 1`-th
/// status check.
///
/// The contract pins the poll laws down: the loop polls exactly up to
/// the first terminal status, sleeping one interval between checks and
/// none after the last; when no terminal status arrives and the timeout
/// is set, the loop ends timed out, having waited more than the timeout
/// but by less than one interval beyond it, and makes no further check.
pub fn run_poll_schedule(statuses: &Vec<JobStatus>, opts: &PollingOptions) -> (r: PollRun)
    requires
        statuses@.len() >= 1,
        statuses@.len() * opts.interval <= u64::MAX,
    ensures
        1 <= r.polls <= statuses@.len(),
        r.waited_ms == (r.polls - 1) * opts.interval,
        forall|j: int| 0 <= j < r.polls - 1 ==> !is_terminal(#[trigger] statuses@[j]),
        r.outcome matches PollOutcome::Completed(s) ==> is_terminal(s)
            && statuses@[r.polls - 1] == s,
        r.outcome == PollOutcome::TimedOut ==> {
            &&& !is_terminal(statuses@[r.polls - 1])
            &&& opts.timeout matches Some(t) && r.waited_ms > t
        },
        opts.timeout matches Some(t) ==> r.waited_ms <= t + opts.interval,
        r.outcome == PollOutcome::Unresolved ==> r.polls == statuses@.len()
            && !is_terminal(statuses@[r.polls - 1]),
        opts.timeout matches Some(t) && (statuses@.len() - 1) * opts.interval > t && (forall|
            j: int,
        | 0 <= j < statuses@.len() ==> !is_terminal(#[trigger] statuses@[j])) ==> r.outcome
            == PollOutcome::TimedOut,
{
    let n = statuses.len();
    let mut i: usize = 0;
    let mut elapsed: u64 = 0;
    loop
        invariant
            n == statuses@.len(),
            0 <= i < statuses@.len(),
            statuses@.len() * opts.interval <= u64::MAX,
            elapsed == i * opts.interval,
            opts.timeout matches Some(t) ==> elapsed <= t + opts.interval,
            forall|j: int| 0 <= j < i ==> !is_terminal(#[trigger] statuses@[j]),
        ensures
            0 <= i < statuses@.len(),
            elapsed == i * opts.interval,
            forall|j: int| 0 <= j < i ==> !is_terminal(#[trigger] statuses@[j]),
            opts.timeout matches Some(t) ==> elapsed <= t + opts.interval,
            match spec_poll_step(statuses@[i as int], elapsed, *opts) {
                PollStep::Done(s) => is_terminal(s) && statuses@[i as int] == s,
                PollStep::TimedOut => !is_terminal(statuses@[i as int])
                    && (opts.timeout matches Some(t) && elapsed > t),
                PollStep::Sleep => i == statuses@.len() - 1 && !is_terminal(statuses@[i as int])
                    && (opts.timeout matches Some(t) ==> elapsed <= t),
            },
        decreases statuses@.len() - i,
    {
        let step = poll_step(statuses[i], elapsed, opts);
        match step {
            PollStep::Done(_) => {
                break;
            },
            PollStep::TimedOut => {
                break;
            },
            PollStep::Sleep => {
                if i + 1 == statuses.len() {
                    break;
                }
                proof {
                    assert((i + 1) * opts.interval == i * opts.interval + opts.interval)
                        by (nonlinear_arith);
                    assert((i + 1) as int * opts.interval <= statuses@.len() * opts.interval)
                        by (nonlinear_arith)
                        requires i + 1 <= statuses@.len(), opts.interval >= 0;
                }
                elapsed = elapsed + opts.interval;
                i = i + 1;
            },
        }
    }
    let step = poll_step(statuses[i], elapsed, opts);
    let outcome = match step {
        PollStep::Done(s) => PollOutcome::Completed(s),
        PollStep::TimedOut => PollOutcome::TimedOut,
        PollStep::Sleep => PollOutcome::Unresolved,
    };
    proof {
        if let Some(t) = opts.timeout {
            if (statuses@.len() - 1) * opts.interval > t && (forall|j: int|
                0 <= j < statuses@.len() ==> !is_terminal(#[trigger] statuses@[j])) {
                if i < statuses@.len() - 1 {
                    assert(step == PollStep::TimedOut);
                } else {
                    assert(elapsed == (statuses@.len() - 1) * opts.interval > t);
                    assert(step == PollStep::TimedOut);
                }
            }
        }
    }
    PollRun { outcome, polls: i + 1, waited_ms: elapsed }
}

} // verus!
