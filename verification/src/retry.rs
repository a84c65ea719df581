//! Retry layer of the resilient transport: classification of call
//! outcomes and a bounded exponential backoff schedule.

use vstd::prelude::*;

verus! {

/// How the retry layer treats one failed call.
#[derive(Clone, Copy, Debug, PartialEq, Eq, Structural)]
pub enum Retryable {
    /// Likely to succeed on a later attempt; eligible for retry.
    Transient,
    /// Certain to recur without a change in the request; surfaced at once.
    Fatal,
}

/// The outcome of one HTTP attempt as the retry layer sees it: either a
/// response with its status code, or a low-level transport failure whose
/// transience the network stack has already judged.
#[derive(Clone, Copy, Debug, PartialEq, Eq, Structural)]
pub enum CallOutcome {
    Status(u16),
    TransportError { transient: bool },
}

/// Status codes that are never retried: client errors and the few
/// server-side codes that signal a permanent condition.
pub open spec fn is_fatal_code(code: u16) -> bool {
    (400 <= code <= 418 && code != 402) || code == 421 || code == 501 || code == 505
        || code == 506 || code == 510
}

/// Status codes that signal a temporary server-side outage.
pub open spec fn is_transient_code(code: u16) -> bool {
    code == 500 || code == 502 || code == 503 || code == 504
}

/// The classification as a pure function of the outcome alone.
/// `None` means the outcome passes through to the caller unmodified,
/// even when the code lies outside the 2xx range.
pub open spec fn spec_classify(outcome: CallOutcome) -> Option<Retryable> {
    match outcome {
        CallOutcome::Status(code) => if is_transient_code(code) {
            Some(Retryable::Transient)
        } else if is_fatal_code(code) {
            Some(Retryable::Fatal)
        } else {
            None
        },
        CallOutcome::TransportError { transient } => if transient {
            Some(Retryable::Transient)
        } else {
            Some(Retryable::Fatal)
        },
    }
}

/// Retry strategy that retries the transient 5xx codes and refuses to
/// retry the fixed set of unrecoverable codes.
pub struct Retry500;

impl Retry500 {
    /// Classify one call outcome. Responses outside both code sets pass
    /// through as successes of the retry layer.
    pub fn handle(&self, outcome: &CallOutcome) -> (r: Option<Retryable>)
        ensures
            r == spec_classify(*outcome),
    {
        match outcome {
            CallOutcome::Status(code) => {
                let c = *code;
                if c == 500 || c == 502 || c == 503 || c == 504 {
                    Some(Retryable::Transient)
                } else if (400 <= c && c <= 418 && c != 402) || c == 421 || c == 501 || c == 505
                    || c == 506 || c == 510 {
                    Some(Retryable::Fatal)
                } else {
                    None
                }
            },
            CallOutcome::TransportError { transient } => {
                if *transient {
                    Some(Retryable::Transient)
                } else {
                    Some(Retryable::Fatal)
                }
            },
        }
    }
}

/// Configuration of the retry layer: per-attempt delay bounds and the
/// total budget of accumulated backoff time, all in milliseconds.
#[derive(Clone, Copy, Debug, PartialEq, Eq, Structural)]
pub struct RetryPolicy {
    pub min_delay_ms: u64,
    pub max_delay_ms: u64,
    pub budget_ms: u64,
}

impl RetryPolicy {
    /// Delay bounds are ordered and positive.
    pub open spec fn wf(self) -> bool {
        0 < self.min_delay_ms <= self.max_delay_ms
    }
}

/// Returns the retry policy used around every HTTP call: backoff delays
/// between one and eight seconds, within a total retry budget that
/// defaults to sixty seconds.
pub fn retry_client(max_duration_ms: Option<u64>) -> (p: RetryPolicy)
    ensures
        p.min_delay_ms == 1000,
        p.max_delay_ms == 8000,
        p.budget_ms == match max_duration_ms {
            Some(d) => d,
            None => 60000,
        },
        p.wf(),
{
    let budget: u64 = match max_duration_ms {
        Some(d) => d,
        None => 60000,
    };
    RetryPolicy { min_delay_ms: 1000, max_delay_ms: 8000, budget_ms: budget }
}

pub open spec fn pow2(n: nat) -> nat
    decreases n,
{
    if n == 0 {
        1
    } else {
        2 * pow2((n - 1) as nat)
    }
}

pub proof fn lemma_pow2_monotonic(a: nat, b: nat)
    requires
        a <= b,
    ensures
        pow2(a) <= pow2(b),
    decreases b,
{
    if a < b {
        lemma_pow2_monotonic(a, (b - 1) as nat);
    }
}

/// Upper end of the delay range open to a given attempt: the minimum
/// delay doubled once per earlier attempt, capped at the maximum.
pub open spec fn spec_backoff_cap(p: RetryPolicy, attempt: nat) -> nat {
    vstd::math::min(p.max_delay_ms as int, p.min_delay_ms * pow2(attempt)) as nat
}

/// The jittered delay before the next attempt: a value between the
/// minimum delay and the attempt's cap, picked by the jitter.
pub open spec fn spec_backoff(p: RetryPolicy, attempt: nat, jitter: u64) -> u64 {
    let width = spec_backoff_cap(p, attempt) - p.min_delay_ms + 1;
    (p.min_delay_ms + jitter as int % width as int) as u64
}

/// Computes the backoff delay before attempt number `attempt` (counted
/// from zero), using `jitter` as the source of randomness.
pub fn backoff_delay(p: &RetryPolicy, attempt: u32, jitter: u64) -> (d: u64)
    requires
        p.wf(),
    ensures
        d == spec_backoff(*p, attempt as nat, jitter),
        p.min_delay_ms <= d <= p.max_delay_ms,
{
    let mut hi: u64 = p.min_delay_ms;
    let mut k: u32 = 0;
    proof {
        assert(pow2(0) == 1);
        assert(p.min_delay_ms * pow2(0) == p.min_delay_ms);
    }
    while k < attempt && hi < p.max_delay_ms
        invariant
            p.wf(),
            k <= attempt,
            p.min_delay_ms <= hi <= p.max_delay_ms,
            hi as nat == spec_backoff_cap(*p, k as nat),
        decreases attempt - k,
    {
        proof {
            let m = p.min_delay_ms as nat;
            let c = m * pow2(k as nat);
            assert(hi as nat == c);
            assert(pow2((k + 1) as nat) == 2 * pow2(k as nat));
            assert(m * (2 * pow2(k as nat)) == 2 * (m * pow2(k as nat))) by (nonlinear_arith);
            assert(m * pow2((k + 1) as nat) == 2 * c);
        }
        if hi <= p.max_delay_ms / 2 {
            hi = hi * 2;
            if hi > p.max_delay_ms {
                hi = p.max_delay_ms;
            }
        } else {
            hi = p.max_delay_ms;
        }
        k = k + 1;
    }
    proof {
        if k < attempt {
            lemma_pow2_monotonic(k as nat, attempt as nat);
            assert(p.min_delay_ms * pow2(k as nat) <= p.min_delay_ms * pow2(attempt as nat))
                by (nonlinear_arith)
                requires pow2(k as nat) <= pow2(attempt as nat), p.min_delay_ms >= 0;
        }
        assert(hi as nat == spec_backoff_cap(*p, attempt as nat));
    }
    let width: u64 = hi - p.min_delay_ms + 1;
    p.min_delay_ms + jitter % width
}

pub proof fn lemma_pow2_positive(n: nat)
    ensures
        pow2(n) >= 1,
    decreases n,
{
    if n > 0 {
        lemma_pow2_positive((n - 1) as nat);
    }
}

/// Every jittered backoff delay lies between the policy's bounds.
pub proof fn lemma_backoff_bounds(p: RetryPolicy, attempt: nat, jitter: u64)
    requires
        p.wf(),
    ensures
        p.min_delay_ms <= spec_backoff(p, attempt, jitter) <= p.max_delay_ms,
{
    lemma_pow2_positive(attempt);
    assert(p.min_delay_ms * pow2(attempt) >= p.min_delay_ms * 1) by (nonlinear_arith)
        requires pow2(attempt) >= 1, p.min_delay_ms >= 0;
    let cap = spec_backoff_cap(p, attempt);
    let width = cap - p.min_delay_ms + 1;
    assert(width >= 1);
    assert(0 <= jitter as int % width);
    assert(jitter as int % width < width);
}

/// How one logical call ends from the retry layer's point of view.
#[derive(Clone, Copy, Debug, PartialEq, Eq, Structural)]
pub enum RetryVerdict {
    /// The last outcome passes through to the caller, retries aside.
    Accepted,
    /// The last outcome was fatal and surfaces at once.
    FatalFailure,
    /// The retry budget ran out; the last outcome surfaces as it stands.
    BudgetExhausted,
}

/// What the caller of `retry_step` must do next.
#[derive(Clone, Copy, Debug, PartialEq, Eq, Structural)]
pub enum RetryDecision {
    /// Stop with this verdict; the current outcome is the final one.
    Finish(RetryVerdict),
    /// Sleep for the given delay in milliseconds, then attempt again.
    Backoff(u64),
}

/// The decision after one attempt, as a pure function of the outcome,
/// the attempt number, the backoff already accumulated, and the jitter.
pub open spec fn spec_retry_step(
    p: RetryPolicy,
    elapsed_ms: u64,
    attempt: nat,
    outcome: CallOutcome,
    jitter: u64,
) -> RetryDecision {
    match spec_classify(outcome) {
        Some(Retryable::Fatal) => RetryDecision::Finish(RetryVerdict::FatalFailure),
        None => RetryDecision::Finish(RetryVerdict::Accepted),
        Some(Retryable::Transient) => {
            let delay = spec_backoff(p, attempt, jitter);
            if elapsed_ms + delay > p.budget_ms {
                RetryDecision::Finish(RetryVerdict::BudgetExhausted)
            } else {
                RetryDecision::Backoff(delay)
            }
        },
    }
}

/// Decides what to do after one attempt. The caller performs the call,
/// hands in its outcome, and on `Backoff(d)` sleeps `d` milliseconds,
/// adds `d` to `elapsed_ms`, and tries again with `attempt + 1`.
pub fn retry_step(
    p: &RetryPolicy,
    elapsed_ms: u64,
    attempt: u32,
    outcome: &CallOutcome,
    jitter: u64,
) -> (d: RetryDecision)
    requires
        p.wf(),
        elapsed_ms <= p.budget_ms,
    ensures
        d == spec_retry_step(*p, elapsed_ms, attempt as nat, *outcome, jitter),
        d matches RetryDecision::Backoff(delay) ==> elapsed_ms + delay <= p.budget_ms
            && p.min_delay_ms <= delay <= p.max_delay_ms,
{
    let retry = Retry500;
    match retry.handle(outcome) {
        Some(Retryable::Fatal) => RetryDecision::Finish(RetryVerdict::FatalFailure),
        None => RetryDecision::Finish(RetryVerdict::Accepted),
        Some(Retryable::Transient) => {
            let delay = backoff_delay(p, attempt, jitter);
            if delay > p.budget_ms - elapsed_ms {
                RetryDecision::Finish(RetryVerdict::BudgetExhausted)
            } else {
                RetryDecision::Backoff(delay)
            }
        },
    }
}

/// Each scheduled delay is at most its attempt's cap — the minimum
/// delay doubled once per earlier attempt, never above the maximum —
/// which bounds how fast the schedule can exhaust a budget.
pub proof fn lemma_backoff_at_most_cap(p: RetryPolicy, attempt: nat, jitter: u64)
    requires
        p.wf(),
    ensures
        spec_backoff(p, attempt, jitter) <= spec_backoff_cap(p, attempt),
        spec_backoff_cap(p, attempt) <= p.max_delay_ms,
        p.min_delay_ms <= spec_backoff_cap(p, attempt) <= p.min_delay_ms * pow2(attempt),
{
    lemma_pow2_positive(attempt);
    assert(p.min_delay_ms * pow2(attempt) >= p.min_delay_ms * 1) by (nonlinear_arith)
        requires pow2(attempt) >= 1, p.min_delay_ms >= 0;
    let cap = spec_backoff_cap(p, attempt);
    let width = cap - p.min_delay_ms + 1;
    assert(width >= 1);
    assert(0 <= jitter as int % width);
    assert(jitter as int % width < width);
}

/// The backoff the schedule accumulates over the first `k` delays:
/// delay number `i` (before attempt `i + 1`) is the jittered exponential
/// backoff for attempt `i`.
pub open spec fn spec_backoff_total(p: RetryPolicy, jitters: Seq<u64>, k: int) -> int
    decreases k,
{
    if k <= 0 {
        0
    } else {
        spec_backoff_total(p, jitters, k - 1) + spec_backoff(p, (k - 1) as nat, jitters[k - 1])
    }
}

/// How one retried call ran: its verdict, how many attempts were made,
/// and how long the schedule slept between them in all.
#[derive(Clone, Copy, Debug, PartialEq, Eq, Structural)]
pub struct RetryRun {
    pub verdict: RetryVerdict,
    pub attempts: usize,
    pub total_delay_ms: u64,
}

/// Replays the retry loop over a given sequence of attempt outcomes,
/// with `jitters[i]` feeding the backoff before attempt `i + 1`.
///
/// The contract pins the retry laws down: a first outcome in the fatal
/// set means exactly one attempt and an immediate error; transient
/// outcomes are retried, each attempt separated by a bounded delay,
/// until the accumulated delay would pass the budget; any other outcome
/// stops the loop and passes through. When the given outcomes run out
/// while the budget still has room, the run ends as exhausted after the
/// last of them.
pub fn run_retry(p: &RetryPolicy, outcomes: &Vec<CallOutcome>, jitters: &Vec<u64>) -> (r: RetryRun)
    requires
        p.wf(),
        outcomes@.len() >= 1,
        jitters@.len() == outcomes@.len(),
        outcomes@.len() <= u32::MAX,
    ensures
        1 <= r.attempts <= outcomes@.len(),
        r.total_delay_ms <= p.budget_ms,
        forall|i: int| 0 <= i < r.attempts - 1 ==> spec_classify(outcomes@[i])
            == Some(Retryable::Transient),
        r.verdict == RetryVerdict::FatalFailure <==> spec_classify(outcomes@[r.attempts - 1])
            == Some(Retryable::Fatal),
        r.verdict == RetryVerdict::Accepted <==> spec_classify(outcomes@[r.attempts - 1])
            == None::<Retryable>,
        spec_classify(outcomes@[0]) == Some(Retryable::Fatal) ==> r.attempts == 1
            && r.total_delay_ms == 0,
        r.attempts > 1 ==> r.total_delay_ms >= p.min_delay_ms,
        r.total_delay_ms <= (r.attempts - 1) * p.max_delay_ms,
        r.total_delay_ms == spec_backoff_total(*p, jitters@, r.attempts - 1),
        r.verdict == RetryVerdict::BudgetExhausted && r.attempts < outcomes@.len()
            ==> r.total_delay_ms + spec_backoff(
            *p,
            (r.attempts - 1) as nat,
            jitters@[r.attempts - 1],
        ) > p.budget_ms,
        r.verdict == RetryVerdict::BudgetExhausted && r.attempts < outcomes@.len()
            ==> r.total_delay_ms + p.max_delay_ms > p.budget_ms,
        p.max_delay_ms <= p.budget_ms && outcomes@.len() >= 2
            && spec_classify(outcomes@[0]) == Some(Retryable::Transient) ==> r.attempts >= 2,
{
    let mut i: usize = 0;
    let mut elapsed: u64 = 0;
    loop
        invariant
            p.wf(),
            0 <= i < outcomes@.len(),
            jitters@.len() == outcomes@.len() <= u32::MAX,
            elapsed <= p.budget_ms,
            elapsed <= i * p.max_delay_ms,
            elapsed == spec_backoff_total(*p, jitters@, i as int),
            i > 0 ==> elapsed >= p.min_delay_ms,
            i == 0 ==> elapsed == 0,
            forall|j: int| 0 <= j < i ==> spec_classify(outcomes@[j]) == Some(Retryable::Transient),
        ensures
            0 <= i < outcomes@.len(),
            elapsed <= p.budget_ms,
            elapsed <= i * p.max_delay_ms,
            elapsed == spec_backoff_total(*p, jitters@, i as int),
            i > 0 ==> elapsed >= p.min_delay_ms,
            i == 0 ==> elapsed == 0,
            forall|j: int| 0 <= j < i ==> spec_classify(outcomes@[j]) == Some(Retryable::Transient),
            match spec_retry_step(*p, elapsed, i as nat, outcomes@[i as int], jitters@[i as int]) {
                RetryDecision::Finish(v) => v == RetryVerdict::FatalFailure
                    <==> spec_classify(outcomes@[i as int]) == Some(Retryable::Fatal),
                RetryDecision::Backoff(_) => i == outcomes@.len() - 1,
            },
            match spec_retry_step(*p, elapsed, i as nat, outcomes@[i as int], jitters@[i as int]) {
                RetryDecision::Finish(v) => v == RetryVerdict::Accepted
                    <==> spec_classify(outcomes@[i as int]) == None::<Retryable>,
                RetryDecision::Backoff(_) => i == outcomes@.len() - 1,
            },
            spec_retry_step(*p, elapsed, i as nat, outcomes@[i as int], jitters@[i as int])
                matches RetryDecision::Finish(v) && v == RetryVerdict::BudgetExhausted
                && i + 1 < outcomes@.len()
                ==> elapsed + p.max_delay_ms > p.budget_ms,
        decreases outcomes@.len() - i,
    {
        let decision = retry_step(p, elapsed, i as u32, &outcomes[i], jitters[i]);
        match decision {
            RetryDecision::Finish(_) => {
                proof {
                    lemma_backoff_bounds(*p, i as nat, jitters@[i as int]);
                }
                break;
            },
            RetryDecision::Backoff(delay) => {
                if i + 1 == outcomes.len() {
                    break;
                }
                proof {
                    assert((i + 1) * p.max_delay_ms == i * p.max_delay_ms + p.max_delay_ms)
                        by (nonlinear_arith);
                    assert(spec_backoff_total(*p, jitters@, i + 1) == spec_backoff_total(
                        *p,
                        jitters@,
                        i as int,
                    ) + spec_backoff(*p, i as nat, jitters@[i as int]));
                }
                elapsed = elapsed + delay;
                i = i + 1;
            },
        }
    }
    let decision = retry_step(p, elapsed, i as u32, &outcomes[i], jitters[i]);
    let verdict = match decision {
        RetryDecision::Finish(v) => v,
        RetryDecision::Backoff(_) => RetryVerdict::BudgetExhausted,
    };
    RetryRun { verdict, attempts: i + 1, total_delay_ms: elapsed }
}

} // verus!
