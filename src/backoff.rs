//! Connection retry policy: exponential backoff with jitter, and the decision taken after
//! each connection attempt.
use crate::configuration::KubeRetrySettings;
use crate::errors::KubernetesError;
use vstd::arithmetic::power2::{lemma2_to64, lemma2_to64_rest, lemma_pow2_strictly_increases, lemma_pow2_unfold, pow2};
use vstd::prelude::*;

verus! {

/// `x` saturated at `u64::MAX`.
pub open spec fn saturate(x: int) -> int {
    if x > u64::MAX {
        u64::MAX as int
    } else {
        x
    }
}

/// `min(max_delay, base_delay * 2^attempt)`, each step saturating at `u64::MAX`.
pub open spec fn capped_backoff(attempt: u32, base_delay_ms: u64, max_delay_ms: u64) -> int {
    let exp = saturate(base_delay_ms * saturate(pow2(attempt as nat) as int));
    if exp < max_delay_ms {
        exp
    } else {
        max_delay_ms as int
    }
}

/// The jitter is drawn from `[0, max(1, delay / 4))`.
pub open spec fn jitter_bound(delay: int) -> int {
    if delay / 4 > 1 {
        delay / 4
    } else {
        1
    }
}

/// Relies on `rand::Rng::random_range` on `rand::rng()`: a value drawn from `0..bound`.
/// The range is never empty, so the call does not panic.
#[verifier::external_body]
fn random_below(bound: u64) -> (r: u64)
    requires
        bound > 0,
    ensures
        r < bound,
{
    rand::Rng::random_range(&mut rand::rng(), 0..bound)
}

/// `2^attempt`, saturating at `u64::MAX`.
fn saturating_pow2(attempt: u32) -> (r: u64)
    ensures
        r == saturate(pow2(attempt as nat) as int),
{
    let mut p: u64 = 1;
    let mut i: u32 = 0;
    proof {
        lemma2_to64();
        lemma2_to64_rest();
    }
    while i < attempt
        invariant
            i <= attempt,
            p == pow2(i as nat),
        decreases attempt - i,
    {
        proof {
            lemma_pow2_unfold((i + 1) as nat);
        }
        if p > u64::MAX / 2 {
            proof {
                if i + 1 < attempt {
                    lemma_pow2_strictly_increases((i + 1) as nat, attempt as nat);
                }
            }
            return u64::MAX;
        }
        p = p * 2;
        i = i + 1;
    }
    p
}

/// The capped exponential term of the backoff, before jitter.
pub fn capped_delay(attempt: u32, base_delay_ms: u64, max_delay_ms: u64) -> (r: u64)
    ensures
        r == capped_backoff(attempt, base_delay_ms, max_delay_ms),
{
    let pow = saturating_pow2(attempt);
    let exp = match base_delay_ms.checked_mul(pow) {
        Some(v) => v,
        None => u64::MAX,
    };
    if exp < max_delay_ms {
        exp
    } else {
        max_delay_ms
    }
}

/// The backoff with a given jitter: `delay + jitter`, saturating.
pub fn backoff_with_jitter(delay: u64, jitter: u64) -> (r: u64)
    requires
        jitter < jitter_bound(delay as int),
    ensures
        r == saturate(delay + jitter),
{
    delay.saturating_add(jitter)
}

/// The delay before the next connection attempt: the capped exponential term plus a
/// jitter drawn uniformly from `[0, max(1, term / 4))`.
pub fn calculate_backoff(attempt: u32, base_delay_ms: u64, max_delay_ms: u64) -> (r: u64)
    ensures
        capped_backoff(attempt, base_delay_ms, max_delay_ms) <= r,
        r < capped_backoff(attempt, base_delay_ms, max_delay_ms) + jitter_bound(
            capped_backoff(attempt, base_delay_ms, max_delay_ms),
        ),
{
    let delay = capped_delay(attempt, base_delay_ms, max_delay_ms);
    let q = delay / 4;
    let bound = if q > 1 {
        q
    } else {
        1
    };
    let jitter = random_below(bound);
    backoff_with_jitter(delay, jitter)
}

/// What to do after a connection attempt.
#[derive(Debug)]
pub enum RetryStep {
    /// The attempt succeeded.
    Connected,
    /// Wait this many milliseconds, then make the next attempt.
    RetryAfter(u64),
    /// Stop and report the last error.
    GiveUp,
}

/// Attempts `0..=max_retries` are made; with retries disabled only the first.
pub open spec fn retry_allowed(settings: KubeRetrySettings, attempt: u32) -> bool {
    settings.enabled && attempt < settings.max_retries
}

/// The step after attempt number `attempt` (counting from zero) succeeded or failed.
pub fn next_retry_step(settings: &KubeRetrySettings, attempt: u32, succeeded: bool) -> (r: RetryStep)
    ensures
        succeeded ==> r is Connected,
        !succeeded && !retry_allowed(*settings, attempt) ==> r is GiveUp,
        !succeeded && retry_allowed(*settings, attempt) ==> (r matches RetryStep::RetryAfter(d)
            && capped_backoff(attempt, settings.base_delay_ms, settings.max_delay_ms) <= d
            && d < capped_backoff(attempt, settings.base_delay_ms, settings.max_delay_ms)
            + jitter_bound(capped_backoff(attempt, settings.base_delay_ms, settings.max_delay_ms))),
{
    if succeeded {
        RetryStep::Connected
    } else if !settings.enabled || attempt >= settings.max_retries {
        RetryStep::GiveUp
    } else {
        RetryStep::RetryAfter(calculate_backoff(attempt, settings.base_delay_ms, settings.max_delay_ms))
    }
}

/// The error reported once the attempts are exhausted: the last one observed, or a
/// generic connection failure when none was recorded.
pub fn final_connection_error(last_error: Option<KubernetesError>) -> (r: KubernetesError)
    ensures
        last_error is Some ==> r == last_error->0,
        last_error is None ==> (r matches KubernetesError::ConnectionError(m) && m@
            == "Failed to create Kubernetes client and no specific error was recorded"@),
{
    match last_error {
        Some(e) => e,
        None => KubernetesError::connection(
            "Failed to create Kubernetes client and no specific error was recorded",
        ),
    }
}

} // verus!
