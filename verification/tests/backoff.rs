//! Retry policy and retry executor behaviour.

use std::cell::Cell;

use cliff::error::Error;
use cliff::retry::RetryDecision;
use cliff::retry::RetryPolicy;
use cliff::retry::next_retry;
use cliff::retry::retry_create_changeset;
use cliff::retry::retry_get_template;
use cliff::retry::retry_if;

fn zero_delay_policy() -> RetryPolicy {
    RetryPolicy { initial_delay_ms: 0, max_attempts: 15, jitter: false }
}

#[test]
fn standard_policy_constants() {
    let p = RetryPolicy::standard();
    assert_eq!(p.initial_delay_ms, 100);
    assert_eq!(p.max_attempts, 15);
    assert!(p.jitter);
}

#[test]
fn delays_double_from_initial() {
    let p = RetryPolicy::standard();
    assert_eq!(p.delay_ms(1), 100);
    assert_eq!(p.delay_ms(2), 200);
    assert_eq!(p.delay_ms(3), 400);
    assert_eq!(p.delay_ms(15), 100 * (1u64 << 14));
}

#[test]
fn delays_are_monotonically_non_decreasing() {
    let p = RetryPolicy::standard();
    let mut prev: u64 = 0;
    for attempt in 1..=15u32 {
        let d = p.delay_ms(attempt);
        assert!(d >= prev);
        prev = d;
    }
}

#[test]
fn delay_saturates_instead_of_overflowing() {
    let p = RetryPolicy { initial_delay_ms: u64::MAX / 2 + 1, max_attempts: 5, jitter: false };
    assert_eq!(p.delay_ms(2), u64::MAX);
    assert_eq!(p.delay_ms(5), u64::MAX);
}

#[test]
fn always_failing_operation_stops_after_max_attempts() {
    let p = zero_delay_policy();
    let calls = Cell::new(0u32);
    let (out, attempts) = retry_if(
        &p,
        |_attempt: u32| -> Result<u32, Error> {
            calls.set(calls.get() + 1);
            Err(Error::Throttling("busy".to_string()))
        },
        |_e: &Error| true,
        |_d: u64| {},
    );
    assert_eq!(attempts, 15);
    assert_eq!(calls.get(), 15);
    assert_eq!(out, Err(Error::Throttling("busy".to_string())));
}

#[test]
fn sleeps_between_attempts_never_shrink() {
    let p = RetryPolicy { initial_delay_ms: 3, max_attempts: 10, jitter: false };
    let delays = Cell::new(Vec::<u64>::new());
    let (out, attempts) = retry_if(
        &p,
        |_attempt: u32| -> Result<u32, Error> { Err(Error::Throttling("busy".to_string())) },
        |_e: &Error| true,
        |d: u64| {
            let mut v = delays.take();
            v.push(d);
            delays.set(v);
        },
    );
    assert!(out.is_err());
    assert_eq!(attempts, 10);
    let v = delays.take();
    assert_eq!(v.len(), 9);
    for w in v.windows(2) {
        assert!(w[0] <= w[1]);
    }
    assert_eq!(v[0], 3);
    assert_eq!(v[8], 3 * (1u64 << 8));
}

#[test]
fn success_resolves_immediately() {
    let p = zero_delay_policy();
    let calls = Cell::new(0u32);
    let (out, attempts) = retry_if(
        &p,
        |_attempt: u32| -> Result<u32, Error> {
            calls.set(calls.get() + 1);
            Ok(7)
        },
        |_e: &Error| true,
        |_d: u64| {},
    );
    assert_eq!(out, Ok(7));
    assert_eq!(attempts, 1);
    assert_eq!(calls.get(), 1);
}

#[test]
fn rejected_error_is_not_retried() {
    let p = zero_delay_policy();
    let calls = Cell::new(0u32);
    let (out, attempts) = retry_if(
        &p,
        |_attempt: u32| -> Result<u32, Error> {
            calls.set(calls.get() + 1);
            Err(Error::Validation("bad".to_string()))
        },
        retry_get_template,
        |_d: u64| {},
    );
    assert_eq!(out, Err(Error::Validation("bad".to_string())));
    assert_eq!(attempts, 1);
    assert_eq!(calls.get(), 1);
}

#[test]
fn transient_failures_are_retried_until_success() {
    let p = zero_delay_policy();
    let calls = Cell::new(0u32);
    let (out, attempts) = retry_if(
        &p,
        |attempt: u32| -> Result<String, Error> {
            calls.set(calls.get() + 1);
            if attempt < 3 {
                Err(Error::Throttling("busy".to_string()))
            } else {
                Ok("id".to_string())
            }
        },
        retry_create_changeset,
        |_d: u64| {},
    );
    assert_eq!(out, Ok("id".to_string()));
    assert_eq!(attempts, 3);
    assert_eq!(calls.get(), 3);
}

#[test]
fn predicates_match_their_call_sites() {
    assert!(retry_get_template(&Error::Throttling("m".to_string())));
    assert!(!retry_get_template(&Error::LimitExceeded));
    assert!(!retry_get_template(&Error::Validation("m".to_string())));
    assert!(retry_create_changeset(&Error::Throttling("m".to_string())));
    assert!(retry_create_changeset(&Error::LimitExceeded));
    assert!(!retry_create_changeset(&Error::Validation("m".to_string())));
}

#[test]
fn retry_decisions_respect_the_cap() {
    let p = RetryPolicy { initial_delay_ms: 100, max_attempts: 3, jitter: false };
    assert_eq!(next_retry(&p, 1, true), RetryDecision::After(100));
    assert_eq!(next_retry(&p, 2, true), RetryDecision::After(200));
    assert_eq!(next_retry(&p, 3, true), RetryDecision::Stop);
    assert_eq!(next_retry(&p, 1, false), RetryDecision::Stop);
}
