//! When a failed request is tried again, and after how long.

use std::time::Duration;
use tokio_retry::strategy::{jitter, ExponentialBackoff};
use vstd::prelude::*;

verus! {

/// The base of the exponential back-off, in milliseconds.
pub const RETRY_BASE_MILLIS: u64 = 10;

/// The longest wait between two attempts, in milliseconds.
pub const RETRY_MAX_DELAY_MILLIS: u64 = 13_000;

/// The number of times that a failed request is tried again.
pub const RETRY_LIMIT: usize = 10;

/// `base` to the power `exponent`, or the largest `u64` where the power is
/// larger.
pub open spec fn saturating_power(base: u64, exponent: nat) -> u64
    decreases exponent,
{
    if exponent == 0 {
        1
    } else if saturating_power(base, (exponent - 1) as nat) * base > u64::MAX {
        u64::MAX
    } else {
        (saturating_power(base, (exponent - 1) as nat) * base) as u64
    }
}

/// The wait in milliseconds after failure number `n`, counted from 0: the base
/// to the power `n + 1`, and no more than the cap.
pub open spec fn backoff_millis(base_millis: u64, max_delay_millis: u64, n: nat) -> u64 {
    if saturating_power(base_millis, n + 1) > max_delay_millis {
        max_delay_millis
    } else {
        saturating_power(base_millis, n + 1)
    }
}

/// The waits of the policy, before the random share is taken of them.
pub proof fn lemma_backoff_schedule()
    ensures
        backoff_millis(RETRY_BASE_MILLIS, RETRY_MAX_DELAY_MILLIS, 0) == 10,
        backoff_millis(RETRY_BASE_MILLIS, RETRY_MAX_DELAY_MILLIS, 1) == 100,
        backoff_millis(RETRY_BASE_MILLIS, RETRY_MAX_DELAY_MILLIS, 2) == 1_000,
        backoff_millis(RETRY_BASE_MILLIS, RETRY_MAX_DELAY_MILLIS, 3) == 10_000,
        forall|n: nat|
            4 <= n < RETRY_LIMIT ==> #[trigger] backoff_millis(
                RETRY_BASE_MILLIS,
                RETRY_MAX_DELAY_MILLIS,
                n,
            ) == 13_000,
{
    reveal_with_fuel(saturating_power, 12);
    assert(saturating_power(10, 1) == 10);
    assert(saturating_power(10, 2) == 100);
    assert(saturating_power(10, 3) == 1_000);
    assert(saturating_power(10, 4) == 10_000);
    assert(saturating_power(10, 5) == 100_000);
    assert(saturating_power(10, 6) == 1_000_000);
    assert(saturating_power(10, 7) == 10_000_000);
    assert(saturating_power(10, 8) == 100_000_000);
    assert(saturating_power(10, 9) == 1_000_000_000);
    assert(saturating_power(10, 10) == 10_000_000_000);
}

/// Calls `ExponentialBackoff::from_millis`, `max_delay` and the iterator's
/// `nth`. Trusted: the strategy never ends; it multiplies the base by itself
/// once for each item, stopping at the largest `u64`, and yields the cap in
/// place of a larger product.
#[verifier::external_body]
fn backoff_delay(base_millis: u64, max_delay_millis: u64, n: usize) -> (delay: Option<u64>)
    requires
        n <= RETRY_LIMIT,
    ensures
        delay == Some(backoff_millis(base_millis, max_delay_millis, n as nat)),
{
    ExponentialBackoff::from_millis(base_millis)
        .max_delay(Duration::from_millis(max_delay_millis))
        .nth(n)
        .map(|delay| delay.as_millis() as u64)
}

/// Calls `tokio_retry::strategy::jitter` on a delay of `millis` milliseconds
/// and gives the result in nanoseconds. Trusted: the random share of a delay is
/// never longer than the delay.
#[verifier::external_body]
fn jittered(millis: u64) -> (nanos: u64)
    requires
        millis <= RETRY_MAX_DELAY_MILLIS,
    ensures
        nanos <= millis * 1_000_000,
{
    jitter(Duration::from_millis(millis)).as_nanos() as u64
}

/// What to do with the outcome of one attempt.
#[derive(Debug, PartialEq, Eq)]
pub enum Verdict<T, E> {
    /// The attempt succeeded with this value.
    Done(T),
    /// Wait for this many nanoseconds, then try again.
    Wait(u64),
    /// The attempts are used up: the call fails with the last error.
    GiveUp(E),
}

/// The longest wait in nanoseconds after failure number `failures`, counted from 0.
pub open spec fn wait_bound(failures: nat) -> int {
    backoff_millis(RETRY_BASE_MILLIS, RETRY_MAX_DELAY_MILLIS, failures) * 1_000_000
}

/// How a call ends that hands the outcome of each attempt to `Retry::settle`,
/// where the attempts end as `outcomes` say (`true` for success) and
/// `failures` of them have failed before: `Some(true)` where it succeeds,
/// `Some(false)` where it gives up, `None` where `outcomes` ends before either.
pub open spec fn call_ends(failures: nat, outcomes: Seq<bool>) -> Option<bool>
    decreases outcomes.len(),
{
    if outcomes.len() == 0 {
        None
    } else if outcomes.first() {
        Some(true)
    } else if failures >= RETRY_LIMIT {
        Some(false)
    } else {
        call_ends(failures + 1, outcomes.drop_first())
    }
}

/// A call never takes more than `RETRY_LIMIT + 1` attempts, and one whose
/// attempts all fail gives up.
pub proof fn lemma_retry_exhaustion(failures: nat, outcomes: Seq<bool>)
    requires
        outcomes.len() > 0,
        failures + outcomes.len() > RETRY_LIMIT,
    ensures
        call_ends(failures, outcomes) is Some,
        (forall|i: int| 0 <= i < outcomes.len() ==> !outcomes[i]) ==> call_ends(failures, outcomes)
            == Some(false),
    decreases outcomes.len(),
{
    if outcomes.len() > 0 && !outcomes.first() && failures < RETRY_LIMIT {
        let rest = outcomes.drop_first();
        lemma_retry_exhaustion(failures + 1, rest);
        if forall|i: int| 0 <= i < outcomes.len() ==> !outcomes[i] {
            assert forall|i: int| 0 <= i < rest.len() implies !rest[i] by {
                assert(!outcomes[i + 1]);
            }
        }
    }
}

/// The attempts of one call: how many have failed so far.
pub struct Retry {
    failures: usize,
}

impl Retry {
    /// The number of attempts that have failed and were followed by a wait.
    pub closed spec fn failures(&self) -> nat {
        self.failures as nat
    }

    #[verifier::type_invariant]
    spec fn inv(&self) -> bool {
        self.failures <= RETRY_LIMIT
    }

    /// The state before the first attempt.
    pub fn new() -> (retry: Retry)
        ensures
            retry.failures() == 0,
    {
        Retry { failures: 0 }
    }

    /// The wait in milliseconds, before the random share is taken of it, that
    /// follows the next failure; `None` once the attempts are used up.
    pub fn backoff(&self) -> (millis: Option<u64>)
        ensures
            self.failures() < RETRY_LIMIT ==> millis == Some(
                backoff_millis(RETRY_BASE_MILLIS, RETRY_MAX_DELAY_MILLIS, self.failures()),
            ),
            self.failures() >= RETRY_LIMIT ==> millis is None,
    {
        if self.failures < RETRY_LIMIT {
            backoff_delay(RETRY_BASE_MILLIS, RETRY_MAX_DELAY_MILLIS, self.failures)
        } else {
            None
        }
    }

    /// Takes the outcome of an attempt. A success ends the call. A failure is
    /// followed by a wait, no longer than the back-off allows, while fewer than
    /// `RETRY_LIMIT` attempts have failed; after that the error is handed back.
    pub fn settle<T, E>(&mut self, outcome: Result<T, E>) -> (verdict: Verdict<T, E>)
        ensures
            final(self).failures() <= RETRY_LIMIT,
            forall|outcomes: Seq<bool>|
                outcomes.len() > 0 && outcomes.first() == (outcome is Ok) ==> #[trigger] call_ends(
                    old(self).failures(),
                    outcomes,
                ) == match verdict {
                    Verdict::Done(_) => Some(true),
                    Verdict::GiveUp(_) => Some(false),
                    Verdict::Wait(_) => call_ends(final(self).failures(), outcomes.drop_first()),
                },
            match outcome {
                Ok(value) => verdict == Verdict::<T, E>::Done(value) && final(self).failures() == old(
                    self,
                ).failures(),
                Err(error) => if old(self).failures() < RETRY_LIMIT {
                    &&& verdict matches Verdict::Wait(nanos)
                    &&& nanos <= wait_bound(old(self).failures())
                    &&& nanos <= RETRY_MAX_DELAY_MILLIS * 1_000_000
                    &&& final(self).failures() == old(self).failures() + 1
                } else {
                    &&& verdict == Verdict::<T, E>::GiveUp(error)
                    &&& final(self).failures() == old(self).failures()
                },
            },
    {
        proof {
            use_type_invariant(&*self);
        }
        match outcome {
            Ok(value) => Verdict::Done(value),
            Err(error) => {
                if self.failures < RETRY_LIMIT {
                    match backoff_delay(RETRY_BASE_MILLIS, RETRY_MAX_DELAY_MILLIS, self.failures) {
                        Some(millis) => {
                            let nanos = jittered(millis);
                            self.failures = self.failures + 1;
                            Verdict::Wait(nanos)
                        },
                        None => Verdict::GiveUp(error),
                    }
                } else {
                    Verdict::GiveUp(error)
                }
            },
        }
    }
}

} // verus!
