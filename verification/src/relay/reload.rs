//! Coordination of hot reloads against the live dispatch loop.
//!
//! A change notification must never corrupt the dispatch path's view of the
//! shared resource, so the reload supervisor only ever acquires it without
//! blocking, and retries a bounded number of times with a fixed delay before
//! abandoning one reload attempt — the prior table then stays authoritative.
//! The surrounding process does the sleeping and the lock attempts; the
//! decisions live here.

use vstd::prelude::*;

verus! {

/// How long the supervisor waits between acquisition attempts.
pub const RELOAD_RETRY_DELAY_MILLIS: u64 = 200;

/// How many acquisition attempts one reload makes before giving up.
pub const RELOAD_MAX_ATTEMPTS: u32 = 10;

/// A bounded-retry policy: at most `max_attempts` tries, `delay_millis`
/// apart. Carried as a value so tests can run it against a fake clock.
pub struct RetryPolicy {
    pub max_attempts: u32,
    pub delay_millis: u64,
}

impl Default for RetryPolicy {
    fn default() -> (r: Self)
        ensures
            r.max_attempts == RELOAD_MAX_ATTEMPTS,
            r.delay_millis == RELOAD_RETRY_DELAY_MILLIS,
    {
        RetryPolicy { max_attempts: RELOAD_MAX_ATTEMPTS, delay_millis: RELOAD_RETRY_DELAY_MILLIS }
    }
}

/// What the supervisor decides after one failed acquisition.
pub enum ReloadDecision {
    /// Sleep this long, then try to acquire again — without blocking.
    RetryAfter { delay_millis: u64 },
    /// Abandon this reload attempt; the prior table remains in force.
    GiveUp,
}

/// The decision owed after `attempts_used` failed acquisitions: another
/// non-blocking try while attempts remain, abandonment as soon as none do.
pub open spec fn spec_decision(attempts_used: nat, policy: RetryPolicy) -> ReloadDecision {
    if attempts_used < policy.max_attempts {
        ReloadDecision::RetryAfter { delay_millis: policy.delay_millis }
    } else {
        ReloadDecision::GiveUp
    }
}

/// One reload attempt in progress: how many failed acquisitions it has seen
/// against its policy's bound.
pub struct ReloadSupervisor {
    pub policy: RetryPolicy,
    pub attempts_used: u32,
}

impl ReloadSupervisor {
    /// A fresh attempt: no acquisition tried yet.
    pub fn new(policy: RetryPolicy) -> (r: Self)
        ensures
            r.policy == policy,
            r.attempts_used == 0,
    {
        ReloadSupervisor { policy, attempts_used: 0 }
    }

    /// Whether another acquisition may still be tried.
    pub fn can_try(&self) -> (r: bool)
        ensures
            r == (self.attempts_used < self.policy.max_attempts),
    {
        self.attempts_used < self.policy.max_attempts
    }

    /// Records one failed non-blocking acquisition (dispatch held the
    /// resource) and decides whether to retry after the fixed delay or to
    /// abandon this reload.
    pub fn on_contention(&mut self) -> (d: ReloadDecision)
        requires
            old(self).attempts_used < old(self).policy.max_attempts,
        ensures
            final(self).policy == old(self).policy,
            final(self).attempts_used == old(self).attempts_used + 1,
            d == spec_decision(final(self).attempts_used as nat, final(self).policy),
    {
        self.attempts_used = self.attempts_used + 1;
        if self.attempts_used < self.policy.max_attempts {
            ReloadDecision::RetryAfter { delay_millis: self.policy.delay_millis }
        } else {
            ReloadDecision::GiveUp
        }
    }
}

/// Whether a change notification predates the start of the most recently
/// completed reload; such a notification is discarded, which suppresses
/// redundant reloads after a burst of changes.
pub fn tick_is_stale(tick_millis: u64, last_reload_start_millis: u64) -> (r: bool)
    ensures
        r == (tick_millis < last_reload_start_millis),
{
    tick_millis < last_reload_start_millis
}

/// The supervisor's state after `k` consecutive contentions: the state that
/// `k` calls of `on_contention` step to.
pub open spec fn spec_after_contentions(s: ReloadSupervisor, k: nat) -> ReloadSupervisor
    decreases k,
{
    if k == 0 {
        s
    } else {
        let prev = spec_after_contentions(s, (k - 1) as nat);
        ReloadSupervisor { policy: prev.policy, attempts_used: (prev.attempts_used + 1) as u32 }
    }
}

/// A reload attempt under constant contention retries up to the bound and no
/// further: from a fresh supervisor, the k-th consecutive failed acquisition
/// is answered with a retry after the fixed delay for every k below the
/// policy's bound, and with `GiveUp` exactly at the bound. Every acquisition
/// the supervisor ever asks for is non-blocking, so an in-flight dispatch
/// holding the resource always runs to completion undisturbed.
pub proof fn lemma_reload_retries_bounded(s: ReloadSupervisor, k: nat)
    requires
        s.attempts_used == 0,
        1 <= k <= s.policy.max_attempts,
    ensures
        spec_after_contentions(s, k).policy == s.policy,
        spec_after_contentions(s, k).attempts_used == k,
        k < s.policy.max_attempts ==> spec_decision(k, s.policy) == (ReloadDecision::RetryAfter {
            delay_millis: s.policy.delay_millis,
        }),
        k == s.policy.max_attempts ==> spec_decision(k, s.policy) == ReloadDecision::GiveUp,
    decreases k,
{
    if k > 1 {
        lemma_reload_retries_bounded(s, (k - 1) as nat);
    } else {
        assert(spec_after_contentions(s, 0) == s);
    }
}

} // verus!
