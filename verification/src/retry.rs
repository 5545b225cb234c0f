//! Bounded exponential-backoff retry execution.
//!
//! [`retry_if`] re-invokes an operation while a per-call predicate accepts
//! the classified error, waiting an exponentially growing delay between
//! attempts, and gives up after the policy's attempt cap.

use vstd::prelude::*;

use crate::error::Error;

verus! {

/// Process-wide retry configuration, shared read-only by every retried call.
#[derive(Clone, Copy, Debug, PartialEq, Eq, Structural)]
pub struct RetryPolicy {
    /// Delay before the first re-attempt, in milliseconds.
    pub initial_delay_ms: u64,
    /// Upper bound on the number of attempts, including the first.
    pub max_attempts: u32,
    /// Whether the caller's sleep should randomize the delay it is handed.
    pub jitter: bool,
}

/// Base delay in milliseconds before the retry that follows failed attempt
/// number `attempt` (1-based): the initial delay doubled per attempt,
/// saturating at `u64::MAX`.
pub open spec fn backoff_delay(initial: nat, attempt: nat) -> nat
    decreases attempt,
{
    if attempt <= 1 {
        initial
    } else {
        let prev = backoff_delay(initial, (attempt - 1) as nat);
        if prev * 2 > u64::MAX {
            u64::MAX as nat
        } else {
            prev * 2
        }
    }
}

/// The backoff delay never leaves the range of its machine type.
pub proof fn lemma_backoff_delay_bounded(initial: nat, attempt: nat)
    requires
        initial <= u64::MAX,
    ensures
        backoff_delay(initial, attempt) <= u64::MAX,
    decreases attempt,
{
    if attempt > 1 {
        lemma_backoff_delay_bounded(initial, (attempt - 1) as nat);
    }
}

/// Law: the inter-attempt delay is monotonically non-decreasing in the
/// attempt number.
pub proof fn lemma_backoff_delay_monotonic(initial: nat, a1: nat, a2: nat)
    requires
        initial <= u64::MAX,
        a1 <= a2,
    ensures
        backoff_delay(initial, a1) <= backoff_delay(initial, a2),
    decreases a2,
{
    if a1 < a2 && a2 > 1 {
        lemma_backoff_delay_monotonic(initial, a1, (a2 - 1) as nat);
        lemma_backoff_delay_bounded(initial, (a2 - 1) as nat);
    }
}

impl RetryPolicy {
    /// A policy is usable when it allows at least one attempt.
    pub open spec fn wf(self) -> bool {
        self.max_attempts >= 1
    }

    /// The process-wide constant configuration: 100 ms initial delay,
    /// 15 attempts, jitter enabled.
    pub fn standard() -> (p: RetryPolicy)
        ensures
            p.initial_delay_ms == 100,
            p.max_attempts == 15,
            p.jitter,
            p.wf(),
    {
        RetryPolicy { initial_delay_ms: 100, max_attempts: 15, jitter: true }
    }

    /// The base delay before the retry following failed attempt `attempt`.
    pub fn delay_ms(&self, attempt: u32) -> (d: u64)
        ensures
            d == backoff_delay(self.initial_delay_ms as nat, attempt as nat),
    {
        let mut d = self.initial_delay_ms;
        let mut k: u32 = 1;
        if attempt <= 1 {
            return d;
        }
        while k < attempt
            invariant
                1 <= k <= attempt,
                d == backoff_delay(self.initial_delay_ms as nat, k as nat),
            decreases attempt - k,
        {
            d = if d > u64::MAX / 2 {
                u64::MAX
            } else {
                d * 2
            };
            k += 1;
        }
        d
    }
}

/// What the retrier decided after a failed attempt.
#[derive(Clone, Copy, Debug, PartialEq, Eq, Structural)]
pub enum RetryDecision {
    /// Surface the failure to the caller.
    Stop,
    /// Wait the given number of milliseconds, then try again.
    After(u64),
}

/// Decide whether to retry after failed attempt number `attempt` whose
/// error the call-site predicate judged `retryable`.
pub fn next_retry(policy: &RetryPolicy, attempt: u32, retryable: bool) -> (d: RetryDecision)
    ensures
        d == if retryable && attempt < policy.max_attempts {
            RetryDecision::After(
                backoff_delay(policy.initial_delay_ms as nat, attempt as nat) as u64,
            )
        } else {
            RetryDecision::Stop
        },
{
    if retryable && attempt < policy.max_attempts {
        proof {
            lemma_backoff_delay_bounded(policy.initial_delay_ms as nat, attempt as nat);
        }
        RetryDecision::After(policy.delay_ms(attempt))
    } else {
        RetryDecision::Stop
    }
}

/// The call-site predicate of the get-template call: retry on throttling
/// only.
pub fn retry_get_template(e: &Error) -> (r: bool)
    ensures
        r == (e@ matches crate::error::ErrorView::Throttling(_)),
{
    match e {
        Error::Throttling(_) => true,
        _ => false,
    }
}

/// The call-site predicate of the create-changeset call: retry on
/// throttling, and on limit-exceeded while the service finalizes a prior
/// changeset deletion.
pub fn retry_create_changeset(e: &Error) -> (r: bool)
    ensures
        r == (e@ matches crate::error::ErrorView::Throttling(_) || e@
            matches crate::error::ErrorView::LimitExceeded),
{
    match e {
        Error::Throttling(_) => true,
        Error::LimitExceeded => true,
        _ => false,
    }
}

/// Attempt number `i` of `operation` can have failed with an error that
/// `should_retry` accepts.
pub open spec fn attempt_failed_retryable<
    T,
    Op: Fn(u32) -> Result<T, Error>,
    P: Fn(&Error) -> bool,
>(operation: Op, should_retry: P, i: u32) -> bool {
    exists|e: Error|
        #[trigger] call_ensures(operation, (i,), Result::<T, Error>::Err(e)) && call_ensures(
            should_retry,
            (&e,),
            true,
        )
}

/// Invoke `operation` under the policy's bounded exponential backoff,
/// retrying while `should_retry` accepts the error, and report the final
/// outcome together with the number of attempts made.
///
/// The attempt number (1-based) is handed to `operation`; `sleep` receives
/// the base delay before each re-attempt and may add jitter when the
/// policy asks for it.
pub fn retry_if<T, Op: Fn(u32) -> Result<T, Error>, P: Fn(&Error) -> bool, S: Fn(u64)>(
    policy: &RetryPolicy,
    operation: Op,
    should_retry: P,
    sleep: S,
) -> (r: (Result<T, Error>, u32))
    requires
        policy.wf(),
        forall|i: u32| 1 <= i <= policy.max_attempts ==> call_requires(operation, (i,)),
        forall|e: &Error| call_requires(should_retry, (e,)),
        forall|d: u64| call_requires(sleep, (d,)),
    ensures
        1 <= r.1 <= policy.max_attempts,
        call_ensures(operation, (r.1,), r.0),
        r.0 matches Err(e) ==> r.1 == policy.max_attempts || call_ensures(
            should_retry,
            (&e,),
            false,
        ),
        forall|i: u32|
            1 <= i < r.1 ==> #[trigger] attempt_failed_retryable(operation, should_retry, i),
        ((forall|i: u32, out: Result<T, Error>|
            call_ensures(operation, (i,), out) ==> out is Err) && (forall|e: &Error, b: bool|
            call_ensures(should_retry, (e,), b) ==> b)) ==> (r.1 == policy.max_attempts
            && r.0 is Err),
{
    let mut attempt: u32 = 1;
    loop
        invariant
            policy.wf(),
            1 <= attempt <= policy.max_attempts,
            forall|i: u32| 1 <= i <= policy.max_attempts ==> call_requires(operation, (i,)),
            forall|e: &Error| call_requires(should_retry, (e,)),
            forall|d: u64| call_requires(sleep, (d,)),
            forall|i: u32|
                1 <= i < attempt ==> #[trigger] attempt_failed_retryable(
                    operation,
                    should_retry,
                    i,
                ),
        decreases policy.max_attempts - attempt,
    {
        let out = operation(attempt);
        match out {
            Result::Ok(v) => {
                return (Result::Ok(v), attempt);
            },
            Result::Err(e) => {
                if attempt == policy.max_attempts {
                    return (Result::Err(e), attempt);
                }
                if !should_retry(&e) {
                    return (Result::Err(e), attempt);
                }
                let d = policy.delay_ms(attempt);
                sleep(d);
                proof {
                    assert(call_ensures(operation, (attempt,), Result::<T, Error>::Err(e))
                        && call_ensures(should_retry, (&e,), true));
                    assert(attempt_failed_retryable(operation, should_retry, attempt));
                }
                attempt = attempt + 1;
            },
        }
    }
}

} // verus!
