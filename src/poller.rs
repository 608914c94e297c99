//! Decisions of the background poller: exponential backoff on failure,
//! reset on success, and the messages it reports. The loop that sleeps,
//! fetches and sends runs outside the library and asks these functions what
//! to do next.
use vstd::prelude::*;

use crate::text::{concat, decimal, u64_text};

verus! {

/// The longest wait between two automatic attempts, in seconds.
pub const MAX_BACKOFF_SECS: u64 = 300;

/// Wait before the single retry of a failed job fetch, in seconds.
pub const JOB_FETCH_RETRY_DELAY_SECS: u64 = 2;

pub open spec fn pow2(n: nat) -> nat
    decreases n,
{
    if n == 0 {
        1
    } else {
        2 * pow2((n - 1) as nat)
    }
}

/// `min(base * 2^failures, MAX_BACKOFF_SECS)`.
pub open spec fn backoff_spec(base: nat, failures: nat) -> nat {
    if base * pow2(failures) < MAX_BACKOFF_SECS {
        base * pow2(failures)
    } else {
        MAX_BACKOFF_SECS as nat
    }
}

pub proof fn lemma_pow2_positive(n: nat)
    ensures
        pow2(n) >= 1,
    decreases n,
{
    if n > 0 {
        lemma_pow2_positive((n - 1) as nat);
    }
}

pub proof fn lemma_pow2_monotone(a: nat, b: nat)
    requires
        a <= b,
    ensures
        pow2(a) <= pow2(b),
    decreases b,
{
    if a < b {
        lemma_pow2_monotone(a, (b - 1) as nat);
        lemma_pow2_positive((b - 1) as nat);
    }
}

/// The wait after `failures` consecutive failures:
/// `min(base_interval * 2^failures, MAX_BACKOFF_SECS)`.
pub fn backoff_delay(base_interval: u64, failures: u32) -> (r: u64)
    ensures
        r == backoff_spec(base_interval as nat, failures as nat),
{
    if base_interval >= MAX_BACKOFF_SECS {
        proof {
            lemma_pow2_positive(failures as nat);
            assert(base_interval * pow2(failures as nat) >= base_interval) by (nonlinear_arith)
                requires
                    pow2(failures as nat) >= 1,
            ;
        }
        return MAX_BACKOFF_SECS;
    }
    let mut d: u64 = base_interval;
    let mut k: u32 = 0;
    assert(pow2(0) == 1);
    while k < failures && d < MAX_BACKOFF_SECS
        invariant
            k <= failures,
            d == base_interval * pow2(k as nat),
            d < 2 * MAX_BACKOFF_SECS,
        decreases failures - k,
    {
        d = d * 2;
        k = k + 1;
        proof {
            assert(pow2(k as nat) == 2 * pow2((k - 1) as nat));
            assert(base_interval * (2 * pow2((k - 1) as nat)) == 2 * (base_interval * pow2((k - 1) as nat))) by (nonlinear_arith);
        }
    }
    proof {
        if k < failures {
            lemma_pow2_monotone(k as nat, failures as nat);
            assert(base_interval * pow2(k as nat) <= base_interval * pow2(failures as nat)) by (nonlinear_arith)
                requires
                    pow2(k as nat) <= pow2(failures as nat),
            ;
        }
    }
    if d < MAX_BACKOFF_SECS {
        d
    } else {
        MAX_BACKOFF_SECS
    }
}

/// Law: the backoff never decreases as failures accumulate.
pub proof fn lemma_backoff_monotone(base: nat, f1: nat, f2: nat)
    requires
        f1 <= f2,
    ensures
        backoff_spec(base, f1) <= backoff_spec(base, f2),
{
    lemma_pow2_monotone(f1, f2);
    assert(base * pow2(f1) <= base * pow2(f2)) by (nonlinear_arith)
        requires
            pow2(f1) <= pow2(f2),
    ;
}

/// Law: the backoff never exceeds `MAX_BACKOFF_SECS`.
pub proof fn lemma_backoff_capped(base: nat, failures: nat)
    ensures
        backoff_spec(base, failures) <= MAX_BACKOFF_SECS,
{
}

/// Law: without failures the wait is the base interval (when that is
/// within the cap).
pub proof fn lemma_backoff_no_failures(base: nat)
    requires
        base <= MAX_BACKOFF_SECS,
    ensures
        backoff_spec(base, 0) == base,
{
    assert(pow2(0) == 1);
}

/// The result of one fetch attempt of the poller.
#[derive(Debug, Clone, Copy, PartialEq, Eq, Structural)]
pub enum PollOutcome {
    Success,
    Failure,
    /// Nobody listens any more: the poller stops.
    ChannelClosed,
}

/// The poller's count of consecutive failed attempts.
#[derive(Debug, Clone, Copy, PartialEq, Eq, Structural)]
pub struct PollerState {
    pub failures: u32,
}

impl PollerState {
    pub fn new() -> (r: PollerState)
        ensures
            r.failures == 0,
    {
        PollerState { failures: 0 }
    }

    /// Records an attempt. Returns whether the poller goes on: it stops when
    /// the channel is closed. Success resets the count; failure adds one.
    pub fn record(&mut self, outcome: PollOutcome) -> (r: bool)
        ensures
            r == (outcome != PollOutcome::ChannelClosed),
            outcome == PollOutcome::Success ==> final(self).failures == 0,
            outcome == PollOutcome::Failure ==> final(self).failures == if old(self).failures < u32::MAX {
                old(self).failures + 1
            } else {
                old(self).failures as int
            },
            outcome == PollOutcome::ChannelClosed ==> final(self).failures == old(self).failures,
    {
        match outcome {
            PollOutcome::Success => {
                self.failures = 0;
                true
            },
            PollOutcome::Failure => {
                self.failures = self.failures.saturating_add(1);
                true
            },
            PollOutcome::ChannelClosed => false,
        }
    }

    /// How long to wait before the next attempt: the base interval after a
    /// success, the backoff delay after failures.
    pub fn next_delay(&self, base_interval: u64) -> (r: u64)
        ensures
            r == if self.failures > 0 {
                backoff_spec(base_interval as nat, self.failures as nat)
            } else {
                base_interval as nat
            },
    {
        if self.failures > 0 {
            backoff_delay(base_interval, self.failures)
        } else {
            base_interval
        }
    }
}

/// `Poll failed, retrying in <delay>s`.
pub fn retry_message(delay: u64) -> (r: String)
    ensures
        r@ == "Poll failed, retrying in "@ + decimal(delay as nat) + "s"@,
{
    let n = u64_text(delay);
    let a = concat("Poll failed, retrying in ", n.as_str());
    concat(a.as_str(), "s")
}

/// The sticky error of a job fetch whose retry failed too.
pub fn job_fetch_error(first: &str, retry: &str) -> (r: String)
    ensures
        r@ == first@ + " (retry also failed: "@ + retry@ + ")"@,
{
    let a = concat(first, " (retry also failed: ");
    let b = concat(a.as_str(), retry);
    concat(b.as_str(), ")")
}

/// The sticky error of a job list that could not be parsed.
pub fn job_parse_error(err: &str) -> (r: String)
    ensures
        r@ == "Job parse error: "@ + err@,
{
    concat("Job parse error: ", err)
}

/// The global error of a run list that could not be parsed.
pub fn parse_error(err: &str) -> (r: String)
    ensures
        r@ == "Parse error: "@ + err@,
{
    concat("Parse error: ", err)
}

} // verus!
