//! Retry decisions with exponential backoff.

use vstd::prelude::*;

use crate::error::CoreError;

verus! {

/// How often and how patiently an operation is retried.
#[derive(Debug, Clone, Copy, PartialEq, Eq, Structural)]
pub struct RetryPolicy {
    pub max_attempts: u32,
    pub base_delay_ms: u64,
    pub max_delay_ms: u64,
}

/// What to do after a failed attempt.
#[derive(Debug, Clone, Copy, PartialEq, Eq, Structural)]
pub enum RetryStep {
    /// Hand the error to the caller.
    GiveUp,
    /// Wait this many milliseconds, then try again.
    RetryAfter(u64),
}

/// Errors that retrying cannot fix.
pub open spec fn is_final_error(e: CoreError) -> bool {
    e is Cancelled || e is Md5Mismatch || e is Parse
}

/// `2^k`.
pub open spec fn pow2(k: nat) -> nat
    decreases k,
{
    if k == 0 {
        1
    } else {
        2 * pow2((k - 1) as nat)
    }
}

proof fn lemma_pow2_mono(k: nat, n: nat)
    requires
        k <= n,
    ensures
        1 <= pow2(k) <= pow2(n),
    decreases n,
{
    if k < n {
        lemma_pow2_mono(k, (n - 1) as nat);
    } else if n > 0 {
        lemma_pow2_mono((n - 1) as nat, (n - 1) as nat);
    }
}

proof fn lemma_pow2_20()
    ensures
        pow2(20) == 0x10_0000,
{
    reveal_with_fuel(pow2, 21);
}

/// `a * b`, or `u64::MAX` where the product does not fit.
pub open spec fn saturating_mul_u64(a: nat, b: nat) -> nat {
    if a * b > u64::MAX {
        u64::MAX as nat
    } else {
        a * b
    }
}

/// The smaller of two numbers.
pub open spec fn min_nat(a: nat, b: nat) -> nat {
    if a <= b {
        a
    } else {
        b
    }
}

/// The wait before the next attempt after attempt number `attempt` failed
/// with `e` (a retryable error): the server's `Retry-After` (or the base
/// delay) for a 429, `base * 2^(attempt - 1)` for anything else, the
/// exponent capped at 20, both capped at `max_delay_ms`.
pub open spec fn backoff_delay(p: RetryPolicy, attempt: nat, e: CoreError) -> nat {
    match e {
        CoreError::RateLimited { retry_after_secs } => min_nat(
            match retry_after_secs {
                Some(s) => saturating_mul_u64(s as nat, 1000),
                None => p.base_delay_ms as nat,
            },
            p.max_delay_ms as nat,
        ),
        _ => min_nat(
            saturating_mul_u64(
                p.base_delay_ms as nat,
                pow2(min_nat((attempt - 1) as nat, 20)),
            ),
            p.max_delay_ms as nat,
        ),
    }
}

/// The step after attempt number `attempt` failed with `e`.
pub open spec fn retry_step(p: RetryPolicy, attempt: nat, e: CoreError) -> RetryStep {
    if attempt >= p.max_attempts || is_final_error(e) {
        RetryStep::GiveUp
    } else {
        RetryStep::RetryAfter(backoff_delay(p, attempt, e) as u64)
    }
}

impl RetryPolicy {
    /// 3 attempts, exponential backoff 2s -> 4s, capped at 30s. For network
    /// requests and transient 5xx.
    pub fn standard() -> (r: Self)
        ensures
            r == (RetryPolicy { max_attempts: 3, base_delay_ms: 2_000, max_delay_ms: 30_000 }),
    {
        Self { max_attempts: 3, base_delay_ms: 2_000, max_delay_ms: 30_000 }
    }

    /// 2 attempts, fixed 1s delay. For per-image MD5 mismatch — likely a
    /// transmission flip rather than upstream corruption, but only worth
    /// one retry.
    pub fn fast() -> (r: Self)
        ensures
            r == (RetryPolicy { max_attempts: 2, base_delay_ms: 1_000, max_delay_ms: 1_000 }),
    {
        Self { max_attempts: 2, base_delay_ms: 1_000, max_delay_ms: 1_000 }
    }

    /// The decision of the retry loop after attempt number `attempt`
    /// (counted from 1) failed with `err`. Transient network errors, 5xx and
    /// 429 are retried; `Cancelled`, `Md5Mismatch` and `Parse` are not.
    pub fn next_step(&self, attempt: u32, err: &CoreError) -> (r: RetryStep)
        requires
            attempt >= 1,
        ensures
            r == retry_step(*self, attempt as nat, *err),
    {
        if attempt >= self.max_attempts {
            return RetryStep::GiveUp;
        }
        match err {
            CoreError::Cancelled | CoreError::Md5Mismatch { .. } | CoreError::Parse(_) => {
                RetryStep::GiveUp
            },
            CoreError::RateLimited { retry_after_secs } => {
                let wanted: u64 = match retry_after_secs {
                    Some(s) => match s.checked_mul(1000) {
                        Some(ms) => ms,
                        None => u64::MAX,
                    },
                    None => self.base_delay_ms,
                };
                let d = if wanted <= self.max_delay_ms {
                    wanted
                } else {
                    self.max_delay_ms
                };
                RetryStep::RetryAfter(d)
            },
            _ => {
                // Cap the exponent to avoid overflow on pathological inputs.
                let shift: u32 = if attempt - 1 <= 20 {
                    attempt - 1
                } else {
                    20
                };
                let mut factor: u64 = 1;
                let mut k: u32 = 0;
                while k < shift
                    invariant
                        k <= shift <= 20,
                        factor == pow2(k as nat),
                        factor <= 0x10_0000,
                    decreases shift - k,
                {
                    proof {
                        lemma_pow2_mono((k + 1) as nat, 20);
                        lemma_pow2_20();
                    }
                    factor = factor * 2;
                    k = k + 1;
                }
                let exp = match self.base_delay_ms.checked_mul(factor) {
                    Some(x) => x,
                    None => u64::MAX,
                };
                let d = if exp <= self.max_delay_ms {
                    exp
                } else {
                    self.max_delay_ms
                };
                RetryStep::RetryAfter(d)
            },
        }
    }
}

/// Retry laws: an error that retrying cannot fix is never retried, no
/// attempt beyond `max_attempts` is made (a single one when it is 0), and
/// no wait exceeds `max_delay_ms`.
pub proof fn law_retry_bounds(p: RetryPolicy, attempt: nat, e: CoreError)
    requires
        attempt >= 1,
    ensures
        is_final_error(e) ==> retry_step(p, attempt, e) == RetryStep::GiveUp,
        attempt >= p.max_attempts ==> retry_step(p, attempt, e) == RetryStep::GiveUp,
        retry_step(p, attempt, e) matches RetryStep::RetryAfter(d) ==> d <= p.max_delay_ms
            && attempt + 1 <= p.max_attempts,
{
}

/// The delay of generic errors doubles from one attempt to the next until
/// it reaches `max_delay_ms` (or the exponent cap).
pub proof fn law_backoff_doubles(p: RetryPolicy, attempt: nat)
    requires
        1 <= attempt <= 20,
        p.base_delay_ms as nat * pow2(attempt) <= p.max_delay_ms,
    ensures
        backoff_delay(p, attempt + 1, CoreError::Cancelled) == 2 * backoff_delay(
            p,
            attempt,
            CoreError::Cancelled,
        ),
{
    let b = p.base_delay_ms as nat;
    assert(pow2(attempt) == 2 * pow2((attempt - 1) as nat));
    assert(b * pow2(attempt) == 2 * (b * pow2((attempt - 1) as nat))) by (nonlinear_arith)
        requires
            pow2(attempt) == 2 * pow2((attempt - 1) as nat),
    ;
    assert(b * pow2((attempt - 1) as nat) <= b * pow2(attempt)) by (nonlinear_arith)
        requires
            pow2(attempt) == 2 * pow2((attempt - 1) as nat),
    ;
}

/// A 429 with `Retry-After: s` and attempts left waits `s` seconds, that is
/// `s * 1000` milliseconds (saturating at `u64::MAX`), but no longer than
/// `max_delay_ms`.
pub proof fn law_rate_limit_waits_retry_after_seconds(p: RetryPolicy, attempt: nat, s: u64)
    requires
        1 <= attempt < p.max_attempts,
    ensures
        ({
            let ms: int = if s * 1000 <= u64::MAX {
                s * 1000
            } else {
                u64::MAX as int
            };
            retry_step(p, attempt, CoreError::RateLimited { retry_after_secs: Some(s) })
                == RetryStep::RetryAfter(
                if ms <= p.max_delay_ms {
                    ms as u64
                } else {
                    p.max_delay_ms
                },
            )
        }),
{
}

/// A 429 without a usable `Retry-After`, with attempts left, waits the base
/// delay, but no longer than `max_delay_ms`.
pub proof fn law_rate_limit_without_header_waits_base(p: RetryPolicy, attempt: nat)
    requires
        1 <= attempt < p.max_attempts,
    ensures
        retry_step(p, attempt, CoreError::RateLimited { retry_after_secs: None })
            == RetryStep::RetryAfter(
            if p.base_delay_ms <= p.max_delay_ms {
                p.base_delay_ms
            } else {
                p.max_delay_ms
            },
        ),
{
}

/// After a first failed attempt with a retryable error other than a 429,
/// the wait is the base delay, but no longer than `max_delay_ms`; the
/// next wait is twice that, within the same cap.
pub proof fn law_first_backoff_is_base_delay(p: RetryPolicy, status: u16)
    requires
        2 < p.max_attempts,
    ensures
        retry_step(p, 1, CoreError::Server { status }) == RetryStep::RetryAfter(
            if p.base_delay_ms <= p.max_delay_ms {
                p.base_delay_ms
            } else {
                p.max_delay_ms
            },
        ),
        ({
            let d: int = if 2 * p.base_delay_ms <= u64::MAX {
                2 * p.base_delay_ms
            } else {
                u64::MAX as int
            };
            retry_step(p, 2, CoreError::Server { status }) == RetryStep::RetryAfter(
                if d <= p.max_delay_ms {
                    d as u64
                } else {
                    p.max_delay_ms
                },
            )
        }),
{
    reveal_with_fuel(pow2, 2);
    let e = CoreError::Server { status };
    let b = p.base_delay_ms as nat;
    assert(min_nat(0, 20) == 0);
    assert(min_nat(1, 20) == 1);
    assert(pow2(0) == 1);
    assert(pow2(1) == 2);
    assert(b * 1 == b);
    assert(b * 2 == 2 * b);
    assert(!is_final_error(e));
    assert(backoff_delay(p, 1, e) == min_nat(saturating_mul_u64(b, 1), p.max_delay_ms as nat));
    assert(backoff_delay(p, 2, e) == min_nat(saturating_mul_u64(b, 2), p.max_delay_ms as nat));
}

} // verus!
