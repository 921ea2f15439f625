//! Exponential reconnection backoff, capped.
use std::time::Duration;

use vstd::prelude::*;

verus! {

/// The first delay, in seconds.
pub const BACKOFF_INITIAL_SECS: u64 = 1;

/// The largest delay, in seconds.
pub const BACKOFF_MAX_SECS: u64 = 30;

/// The `Duration` of `secs` whole seconds.
pub uninterp spec fn duration_of_secs(secs: u64) -> Duration;

/// `Duration::from_secs`: the duration of `secs` whole seconds.
#[verifier::external_body]
pub(crate) fn secs_to_duration(secs: u64) -> (d: Duration)
    ensures
        d == duration_of_secs(secs),
{
    Duration::from_secs(secs)
}

/// The first delay.
pub fn backoff_initial() -> (d: Duration)
    ensures
        d == duration_of_secs(BACKOFF_INITIAL_SECS),
{
    secs_to_duration(BACKOFF_INITIAL_SECS)
}

/// The largest delay.
pub fn backoff_max() -> (d: Duration)
    ensures
        d == duration_of_secs(BACKOFF_MAX_SECS),
{
    secs_to_duration(BACKOFF_MAX_SECS)
}

/// The delay that follows a delay of `secs` seconds: double it, at most
/// the maximum.
pub open spec fn next_delay(secs: u64) -> u64 {
    if 2 * secs < BACKOFF_MAX_SECS {
        (2 * secs) as u64
    } else {
        BACKOFF_MAX_SECS
    }
}

/// The delay handed out by the `k`-th call of `advance` after creation or
/// reset, counting from zero.
pub open spec fn nth_delay(k: nat) -> u64
    decreases k,
{
    if k == 0 {
        BACKOFF_INITIAL_SECS
    } else {
        next_delay(nth_delay((k - 1) as nat))
    }
}

#[derive(Debug, PartialEq, Eq)]
pub struct BackoffPolicy {
    next_secs: u64,
}

impl Clone for BackoffPolicy {
    fn clone(&self) -> (copy: Self)
        ensures
            copy == *self,
    {
        proof {
            use_type_invariant(self);
        }
        BackoffPolicy { next_secs: self.next_secs }
    }
}

impl BackoffPolicy {
    #[verifier::type_invariant]
    spec fn wf(self) -> bool {
        BACKOFF_INITIAL_SECS <= self.next_secs <= BACKOFF_MAX_SECS
    }

    /// The delay, in seconds, that the next call of `advance` hands out.
    pub closed spec fn next_secs(self) -> u64 {
        self.next_secs
    }

    pub fn new() -> (policy: Self)
        ensures
            policy.next_secs() == BACKOFF_INITIAL_SECS,
    {
        BackoffPolicy { next_secs: BACKOFF_INITIAL_SECS }
    }

    /// Hand out the current delay and double the next one, up to the
    /// maximum.
    pub fn advance(&mut self) -> (delay: Duration)
        ensures
            delay == duration_of_secs(old(self).next_secs()),
            final(self).next_secs() == next_delay(old(self).next_secs()),
            BACKOFF_INITIAL_SECS <= old(self).next_secs() <= BACKOFF_MAX_SECS,
            BACKOFF_INITIAL_SECS <= final(self).next_secs() <= BACKOFF_MAX_SECS,
    {
        proof {
            use_type_invariant(&*self);
        }
        let current = self.next_secs;
        let doubled = current * 2;
        self.next_secs = if doubled < BACKOFF_MAX_SECS {
            doubled
        } else {
            BACKOFF_MAX_SECS
        };
        secs_to_duration(current)
    }

    /// Start again from the first delay.
    pub fn reset(&mut self)
        ensures
            final(self).next_secs() == BACKOFF_INITIAL_SECS,
    {
        self.next_secs = BACKOFF_INITIAL_SECS;
    }
}

impl Default for BackoffPolicy {
    fn default() -> (policy: Self)
        ensures
            policy.next_secs() == BACKOFF_INITIAL_SECS,
    {
        Self::new()
    }
}

/// The delays double from one second up to thirty and then stay there:
/// every delay lies between the initial and the maximum, and from the
/// sixth call on it is the maximum.
pub proof fn lemma_delays_double_until_max(k: nat)
    ensures
        BACKOFF_INITIAL_SECS <= nth_delay(k) <= BACKOFF_MAX_SECS,
        k < 5 ==> nth_delay(k) == vstd::arithmetic::power2::pow2(k),
        k >= 5 ==> nth_delay(k) == BACKOFF_MAX_SECS,
    decreases k,
{
    reveal(vstd::arithmetic::power2::pow2);
    if k > 0 {
        lemma_delays_double_until_max((k - 1) as nat);
        vstd::arithmetic::power2::lemma2_to64();
    } else {
        vstd::arithmetic::power2::lemma2_to64();
    }
}

/// The delay, in seconds, that the next `advance` hands out after a run of
/// calls on a new policy, `true` standing for `advance` and `false` for
/// `reset`.
pub open spec fn next_after(calls: Seq<bool>) -> u64
    decreases calls.len(),
{
    if calls.len() == 0 {
        BACKOFF_INITIAL_SECS
    } else if calls.last() {
        next_delay(next_after(calls.drop_last()))
    } else {
        BACKOFF_INITIAL_SECS
    }
}

/// Whatever calls came before, the next delay lies between the initial and
/// the maximum, and the delay after it, with no reset between, is the
/// double capped at the maximum, so delays never shrink until a reset.
pub proof fn lemma_delays_never_shrink(calls: Seq<bool>)
    ensures
        BACKOFF_INITIAL_SECS <= next_after(calls) <= BACKOFF_MAX_SECS,
        next_after(calls.push(true)) == if 2 * next_after(calls) < BACKOFF_MAX_SECS {
            2 * next_after(calls)
        } else {
            BACKOFF_MAX_SECS as int
        },
        next_after(calls) <= next_after(calls.push(true)) <= BACKOFF_MAX_SECS,
        next_after(calls.push(false)) == BACKOFF_INITIAL_SECS,
    decreases calls.len(),
{
    assert(calls.push(true).drop_last() =~= calls);
    assert(calls.push(false).drop_last() =~= calls);
    if calls.len() > 0 {
        lemma_delays_never_shrink(calls.drop_last());
    }
}

} // verus!
