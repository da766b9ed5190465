//! The reconnect/backoff policy for outbound connections.
//!
//! A failed connection attempt is retried after `base_delay * 1.5 ^ attempt`;
//! after `max_retries` consecutive failures the final error is surfaced and
//! no further attempt is made. A connection that succeeded and later dropped
//! is retried after a flat reconnect delay, and the whole connect-with-retry
//! sequence starts over from attempt zero, with no ceiling.
//!
//! Delays are kept in milliseconds, so the three-halves growth is exact
//! integer arithmetic: `base_ms * 3^attempt / 2^attempt`.

use vstd::prelude::*;
use vstd::arithmetic::power::{pow, lemma_pow_increases};

verus! {

/// The wait before connection attempt `attempt + 1`, in milliseconds:
/// `base_ms * 1.5^attempt`, rounded down, saturating at `u64::MAX` once the
/// numerator leaves the 64-bit range.
pub open spec fn spec_backoff_delay_ms(base_ms: nat, attempt: nat) -> nat {
    if base_ms * pow(3, attempt) <= u64::MAX as nat {
        ((base_ms * pow(3, attempt)) / pow(2, attempt)) as nat
    } else {
        u64::MAX as nat
    }
}

/// The backoff delay after `attempt` consecutive failures, exactly as
/// [`spec_backoff_delay_ms`] gives it.
pub fn backoff_delay_ms(base_ms: u64, attempt: u32) -> (r: u64)
    ensures
        r as nat == spec_backoff_delay_ms(base_ms as nat, attempt as nat),
{
    if base_ms == 0 {
        proof {
            vstd::arithmetic::power::lemma_pow_positive(3, attempt as nat);
            vstd::arithmetic::power::lemma_pow_positive(2, attempt as nat);
        }
        return 0;
    }
    let mut p3: u128 = 1;
    let mut p2: u128 = 1;
    let mut i: u32 = 0;
    proof {
        vstd::arithmetic::power::lemma_pow0(3);
        vstd::arithmetic::power::lemma_pow0(2);
    }
    while i < attempt
        invariant
            i <= attempt,
            base_ms >= 1,
            p3 as int == pow(3, i as nat),
            p2 as int == pow(2, i as nat),
            p2 <= p3,
            (base_ms as int) * (p3 as int) <= u64::MAX as int,
        decreases attempt - i,
    {
        proof {
            assert(p3 <= u64::MAX as u128) by (nonlinear_arith)
                requires
                    base_ms >= 1,
                    p3 >= 0,
                    (base_ms as int) * (p3 as int) <= u64::MAX as int,
            {
            }
        }
        let next3: u128 = p3 * 3;
        proof {
            lemma_pow_step(3, i as nat);
            assert(next3 as int == pow(3, (i + 1) as nat));
        }
        let saturated: bool;
        if next3 > u64::MAX as u128 {
            saturated = true;
        } else {
            proof {
                assert((base_ms as int) * (next3 as int) <= u128::MAX as int) by (nonlinear_arith)
                    requires
                        0 <= base_ms <= u64::MAX as int,
                        0 <= next3 <= u64::MAX as int,
                {
                }
            }
            saturated = (base_ms as u128) * next3 > u64::MAX as u128;
        }
        if saturated {
            proof {
                assert((base_ms as int) * (next3 as int) > u64::MAX as int) by (nonlinear_arith)
                    requires
                        base_ms >= 1,
                        next3 >= 0,
                        next3 > u64::MAX as int || (base_ms as int) * (next3 as int) > u64::MAX
                            as int,
                {
                }
                lemma_pow_increases(3, (i + 1) as nat, attempt as nat);
                assert((base_ms as int) * pow(3, attempt as nat) > u64::MAX as int) by (
                nonlinear_arith)
                    requires
                        base_ms >= 1,
                        (base_ms as int) * pow(3, (i + 1) as nat) > u64::MAX as int,
                        pow(3, (i + 1) as nat) <= pow(3, attempt as nat),
                {
                }
            }
            return u64::MAX;
        }
        proof {
            lemma_pow_step(2, i as nat);
            lemma_pow23_le((i + 1) as nat);
        }
        p3 = next3;
        p2 = p2 * 2;
        i = i + 1;
    }
    proof {
        assert((base_ms as int) * (p3 as int) <= u64::MAX as int);
    }
    let num: u128 = (base_ms as u128) * p3;
    proof {
        vstd::arithmetic::power::lemma_pow_positive(2, attempt as nat);
        assert(num / p2 <= num) by (nonlinear_arith)
            requires
                p2 >= 1,
                num >= 0,
        {
        }
    }
    (num / p2) as u64
}

/// One more step of the power: `b^(e+1)` is `b * b^e`.
proof fn lemma_pow_step(b: int, e: nat)
    ensures
        pow(b, e + 1) == b * pow(b, e),
{
    reveal(pow);
    assert(pow(b, e + 1) == b * pow(b, ((e + 1) - 1) as nat));
}

/// Two to a power never exceeds three to the same power.
proof fn lemma_pow23_le(e: nat)
    ensures
        pow(2, e) <= pow(3, e),
    decreases e,
{
    reveal(pow);
    if e > 0 {
        lemma_pow23_le((e - 1) as nat);
        vstd::arithmetic::power::lemma_pow_positive(2, (e - 1) as nat);
        assert(pow(2, e) == 2 * pow(2, (e - 1) as nat));
        assert(pow(3, e) == 3 * pow(3, (e - 1) as nat));
    }
}

/// A retry schedule's opening delays, for a one-second base: three halves of
/// the base, then of that, then of that.
pub proof fn lemma_backoff_schedule()
    ensures
        spec_backoff_delay_ms(1000, 1) == 1500,
        spec_backoff_delay_ms(1000, 2) == 2250,
        spec_backoff_delay_ms(1000, 3) == 3375,
{
    reveal_with_fuel(pow, 4);
    assert(pow(3, 0) == 1 && pow(2, 0) == 1);
    assert(pow(3, 1) == 3 && pow(3, 2) == 9 && pow(3, 3) == 27);
    assert(pow(2, 1) == 2 && pow(2, 2) == 4 && pow(2, 3) == 8);
}

/// A configured delay in seconds, as milliseconds, saturating at `u64::MAX`.
pub fn secs_to_ms(secs: u64) -> (r: u64)
    ensures
        r as nat == (if secs * 1000 <= u64::MAX as nat {
            (secs * 1000) as nat
        } else {
            u64::MAX as nat
        }),
{
    match secs.checked_mul(1000) {
        Some(ms) => ms,
        None => u64::MAX,
    }
}

/// What the caller of a failed connection attempt does next: wait and try
/// again, or surface the final error and stop.
#[derive(Clone, Copy, PartialEq, Eq, Structural, Debug)]
pub enum RetryDecision {
    /// Wait this long, then attempt again.
    Wait { delay_ms: u64 },
    /// `max_retries` consecutive failures: hand the last error to the caller.
    GiveUp,
}

/// The connect-with-retry sequence's position: how many consecutive attempts
/// have failed since the last success.
pub struct RetryState {
    pub attempts_failed: u32,
}

impl RetryState {
    /// A fresh sequence: nothing has failed yet.
    pub fn new() -> (r: Self)
        ensures
            r.attempts_failed == 0,
    {
        RetryState { attempts_failed: 0 }
    }

    /// A connection attempt failed. Within the ceiling, count it and wait
    /// `base * 1.5^attempt`; at the ceiling, give up — the caller surfaces
    /// the error it has in hand and makes no further attempt.
    pub fn on_connect_failure(&mut self, max_retries: u32, base_delay_ms: u64) -> (d:
        RetryDecision)
        ensures
            old(self).attempts_failed >= max_retries ==> d == RetryDecision::GiveUp
                && final(self).attempts_failed == old(self).attempts_failed,
            old(self).attempts_failed < max_retries ==> final(self).attempts_failed == old(
                self,
            ).attempts_failed + 1 && d == (RetryDecision::Wait {
                delay_ms: spec_backoff_delay_ms(
                    base_delay_ms as nat,
                    (old(self).attempts_failed + 1) as nat,
                ) as u64,
            }),
    {
        if self.attempts_failed >= max_retries {
            RetryDecision::GiveUp
        } else {
            self.attempts_failed = self.attempts_failed + 1;
            let delay_ms = backoff_delay_ms(base_delay_ms, self.attempts_failed);
            RetryDecision::Wait { delay_ms }
        }
    }

    /// The connection came up: the failure count starts over.
    pub fn on_connected(&mut self)
        ensures
            final(self).attempts_failed == 0,
    {
        self.attempts_failed = 0;
    }

    /// An established stream dropped. The peer has proven reachable, so the
    /// wait is the flat reconnect delay, and the next connect-with-retry
    /// sequence starts from attempt zero — there is no ceiling on recovering
    /// an already-proven connection.
    pub fn on_stream_drop(&mut self, reconnect_delay_ms: u64) -> (delay_ms: u64)
        ensures
            final(self).attempts_failed == 0,
            delay_ms == reconnect_delay_ms,
    {
        self.attempts_failed = 0;
        reconnect_delay_ms
    }
}

} // verus!
