//! Reconnect policy: a pure decision from the attempt counter to a
//! linear-backoff delay or the decision to give up.  Each connection
//! consults the policy independently; the counter itself lives with the
//! connection record and is reset by its supervisor after any
//! successfully decoded frame.

use vstd::prelude::*;
use vstd::arithmetic::mul::lemma_mul_inequality;

verus! {

/// Linear backoff policy: attempt `n` (1-based) waits `base_delay_ms * n`
/// milliseconds, and attempts beyond `max_attempts` give up.
/// `max_attempts == 0` means "never retry".
#[derive(Clone, Copy, Debug, PartialEq, Eq, Structural)]
pub struct ReconnectPolicy {
    pub base_delay_ms: u64,
    pub max_attempts: u32,
}

/// What to do after a connection died on its `attempt`-th consecutive
/// failure.
#[derive(Clone, Copy, Debug, PartialEq, Eq, Structural)]
pub enum ReconnectDecision {
    /// Wait this many milliseconds, then reopen.
    RetryAfter { delay_ms: u64 },
    /// The attempt limit is exhausted: stop retrying this connection.
    GiveUp,
}

/// The backoff delay for the given attempt: `base_delay_ms * attempt`,
/// saturated at `u64::MAX`.
pub open spec fn spec_backoff_ms(p: ReconnectPolicy, attempt: u32) -> u64 {
    let prod = p.base_delay_ms as int * attempt as int;
    if prod > u64::MAX as int {
        u64::MAX
    } else {
        prod as u64
    }
}

/// The policy's decision for the given attempt number: retry with linear
/// backoff while `1 <= attempt <= max_attempts`, otherwise give up.
pub open spec fn spec_decide(p: ReconnectPolicy, attempt: u32) -> ReconnectDecision {
    if 1 <= attempt && attempt <= p.max_attempts {
        ReconnectDecision::RetryAfter { delay_ms: spec_backoff_ms(p, attempt) }
    } else {
        ReconnectDecision::GiveUp
    }
}

impl ReconnectPolicy {
    /// Decides what to do after the `attempt`-th consecutive failure of a
    /// connection (the first failure is attempt 1).
    pub fn decide(&self, attempt: u32) -> (d: ReconnectDecision)
        ensures
            d == spec_decide(*self, attempt),
    {
        if 1 <= attempt && attempt <= self.max_attempts {
            ReconnectDecision::RetryAfter { delay_ms: self.backoff_ms(attempt) }
        } else {
            ReconnectDecision::GiveUp
        }
    }

    /// The backoff delay before the `attempt`-th retry.
    pub fn backoff_ms(&self, attempt: u32) -> (d: u64)
        ensures
            d == spec_backoff_ms(*self, attempt),
    {
        match self.base_delay_ms.checked_mul(attempt as u64) {
            Some(d) => d,
            None => u64::MAX,
        }
    }
}

/// Backoff is monotone: for a fixed policy, a later attempt never waits
/// less than an earlier one.
pub proof fn lemma_backoff_monotonic(p: ReconnectPolicy, a1: u32, a2: u32)
    requires
        a1 <= a2,
    ensures
        spec_backoff_ms(p, a1) <= spec_backoff_ms(p, a2),
{
    let base = p.base_delay_ms as int;
    lemma_mul_inequality(a1 as int, a2 as int, base);
    assert(a1 as int * base <= a2 as int * base);
    assert(base * a1 as int <= base * a2 as int);
}

/// A policy with `max_attempts == 0` never retries, whatever the attempt
/// number.
pub proof fn lemma_zero_max_never_retries(p: ReconnectPolicy, attempt: u32)
    requires
        p.max_attempts == 0,
    ensures
        spec_decide(p, attempt) is GiveUp,
{
}

} // verus!
