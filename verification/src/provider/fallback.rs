//! Falling back from a primary language-model provider (usually a cloud
//! service) to a local one.
//!
//! The primary is tried up to `max_retries` times with exponential
//! back-off; then the fallback is tried once.  The requests themselves
//! are made outside the library, which follows the steps given here.

use vstd::prelude::*;
use vstd::string::StringExecFns;
use crate::error::{llm_error_text, LlmError};

verus! {

broadcast use vstd::string::group_string_axioms;

/// The next thing to do.
#[derive(Debug, Clone, Copy, PartialEq, Eq, Structural)]
pub enum FallbackStep {
    /// Ask the primary provider (attempt number, from 1).
    Primary { attempt: u32 },
    /// Wait, then ask the primary provider again.
    WaitThenPrimary { delay_ms: u64, attempt: u32 },
    /// Ask the fallback provider.
    Fallback,
}

/// `2^k`.
pub open spec fn pow2(k: nat) -> nat
    decreases k,
{
    if k == 0 {
        1
    } else {
        2 * pow2((k - 1) as nat)
    }
}

/// The back-off before retry after failed attempt `attempt`:
/// `500 * 2^(attempt-1)` milliseconds.
pub open spec fn backoff_ms(attempt: u32) -> nat {
    500 * pow2((attempt - 1) as nat)
}

/// A primary and a fallback provider.
pub struct FallbackLlmProvider<P> {
    primary: P,
    fallback: P,
    max_retries: u32,
}

impl<P> FallbackLlmProvider<P> {
    pub closed spec fn retries(&self) -> u32 {
        self.max_retries
    }

    pub closed spec fn primary_view(&self) -> P {
        self.primary
    }

    pub closed spec fn fallback_view(&self) -> P {
        self.fallback
    }

    /// Three attempts at the primary before falling back.
    pub fn new(primary: P, fallback: P) -> (f: Self)
        ensures
            f.retries() == 3,
            f.primary_view() == primary,
            f.fallback_view() == fallback,
    {
        FallbackLlmProvider { primary, fallback, max_retries: 3 }
    }

    pub fn with_max_retries(self, retries: u32) -> (f: Self)
        ensures
            f.retries() == retries,
            f.primary_view() == self.primary_view(),
            f.fallback_view() == self.fallback_view(),
    {
        FallbackLlmProvider { max_retries: retries, ..self }
    }

    /// The number of attempts at the primary.
    pub fn max_retries(&self) -> (r: u32)
        ensures
            r == self.retries(),
    {
        self.max_retries
    }

    pub fn primary(&self) -> (p: &P)
        ensures
            *p == self.primary_view(),
    {
        &self.primary
    }

    pub fn fallback(&self) -> (p: &P)
        ensures
            *p == self.fallback_view(),
    {
        &self.fallback
    }

    /// The first step: the primary's first attempt, or straight to the
    /// fallback when no attempts are allowed.
    pub fn first_step(&self) -> (s: FallbackStep)
        ensures
            self.retries() >= 1 ==> s == (FallbackStep::Primary { attempt: 1 }),
            self.retries() == 0 ==> s == FallbackStep::Fallback,
    {
        if self.max_retries >= 1 {
            FallbackStep::Primary { attempt: 1 }
        } else {
            FallbackStep::Fallback
        }
    }

    /// The step after the primary's attempt `attempt` failed: wait and
    /// retry while attempts are left, else fall back.
    pub fn after_primary_failure(&self, attempt: u32) -> (s: FallbackStep)
        requires
            1 <= attempt <= self.retries(),
            attempt < self.retries() ==> attempt <= 56,
        ensures
            attempt < self.retries() ==> s == (FallbackStep::WaitThenPrimary {
                delay_ms: backoff_ms(attempt) as u64,
                attempt: (attempt + 1) as u32,
            }),
            attempt == self.retries() ==> s == FallbackStep::Fallback,
    {
        if attempt < self.max_retries {
            let mut p: u64 = 1;
            let mut k: u32 = 1;
            proof {
                lemma_pow2_mono(0, 55);
                assert(pow2(55) == 36028797018963968) by {
                    reveal_with_fuel(pow2, 56);
                }
            }
            while k < attempt
                invariant
                    1 <= k <= attempt <= 56,
                    pow2(55) == 36028797018963968,
                    p == pow2((k - 1) as nat),
                    p <= pow2(55),
                decreases attempt - k,
            {
                proof {
                    assert(pow2(k as nat) == 2 * pow2((k - 1) as nat));
                    lemma_pow2_mono(k as nat, 55);
                }
                p = p * 2;
                k += 1;
            }
            FallbackStep::WaitThenPrimary { delay_ms: 500 * p, attempt: attempt + 1 }
        } else {
            FallbackStep::Fallback
        }
    }
}

/// `pow2` is monotonic.
pub proof fn lemma_pow2_mono(a: nat, b: nat)
    requires
        a <= b,
    ensures
        pow2(a) <= pow2(b),
    decreases b,
{
    if a < b {
        lemma_pow2_mono(a, (b - 1) as nat);
    }
}

/// Each retry of the primary waits twice as long as the one before.
pub proof fn lemma_backoff_doubles(attempt: u32)
    requires
        1 <= attempt < u32::MAX,
    ensures
        backoff_ms((attempt + 1) as u32) == 2 * backoff_ms(attempt),
{
    assert(pow2(attempt as nat) == 2 * pow2((attempt - 1) as nat));
}

/// The error when both providers failed.
pub open spec fn both_failed_text(
    primary: Seq<char>,
    last: Option<LlmError>,
    fallback: Seq<char>,
    err: LlmError,
) -> Seq<char> {
    "Both primary ("@ + primary + ": "@ + match last {
        Some(e) => llm_error_text(e),
        None => Seq::empty(),
    } + ") and fallback ("@ + fallback + ": "@ + llm_error_text(err) + ") failed"@
}

/// The error reported when the fallback failed too: the names of both
/// providers with their last errors.
pub fn both_failed(primary: &str, last: &Option<LlmError>, fallback: &str, err: &LlmError) -> (e: LlmError)
    ensures
        e matches LlmError::Provider(m) && m@ == both_failed_text(primary@, *last, fallback@, *err),
{
    let mut m = String::from_str("Both primary (");
    m.append(primary);
    m.append(": ");
    match last {
        Some(e) => {
            let t = e.message();
            m.append(t.as_str());
        },
        None => {},
    }
    m.append(") and fallback (");
    m.append(fallback);
    m.append(": ");
    let t = err.message();
    m.append(t.as_str());
    m.append(") failed");
    LlmError::Provider(m)
}

} // verus!
