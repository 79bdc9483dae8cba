//! The shared retry policy: which failures are worth another attempt, how
//! many attempts an operation gets, and how long to back off between them.
//!
//! Generation calls, upload steps and status polls all go through this one
//! policy. The only nondeterminism is the jitter factor, drawn once per
//! delay from a fixed band around one.

use vstd::prelude::*;

verus! {

/// How often one operation is retried after its first attempt.
pub const MAX_RETRIES: u64 = 3;

/// First backoff delay.
pub const BACKOFF_BASE_MS: u64 = 1000;

/// Ceiling for every backoff delay, jitter included.
pub const BACKOFF_CAP_MS: u64 = 8000;

/// Why an HTTP call failed: a response with a bad status, or no response
/// at all.
#[derive(Debug, Clone, Copy, PartialEq, Eq, Structural)]
pub enum CallFailure {
    Status { code: u16 },
    Timeout,
    Connect,
    RequestBuild,
    OtherTransport,
}

/// Statuses worth retrying: too-many-requests and every server error.
pub open spec fn spec_retry_status(code: u16) -> bool {
    code == 429 || (500 <= code && code < 600)
}

/// Is a failure transient enough to retry?
pub open spec fn spec_retryable(f: CallFailure) -> bool {
    match f {
        CallFailure::Status { code } => spec_retry_status(code),
        CallFailure::Timeout => true,
        CallFailure::Connect => true,
        CallFailure::RequestBuild => true,
        CallFailure::OtherTransport => false,
    }
}

/// The exponential delay before jitter: the base doubled per attempt,
/// capped. With a one-second base and an eight-second cap the cap is
/// reached at the third retry.
pub open spec fn spec_backoff_capped_ms(attempt: int) -> int {
    if attempt == 0 {
        1000
    } else if attempt == 1 {
        2000
    } else if attempt == 2 {
        4000
    } else {
        8000
    }
}

/// The delay one retry waits: the capped exponential scaled by a jitter
/// factor in thousandths, capped once more.
pub open spec fn spec_backoff_ms(attempt: int, jitter_permille: int) -> int {
    let scaled = spec_backoff_capped_ms(attempt) * jitter_permille / 1000;
    if scaled <= BACKOFF_CAP_MS as int {
        scaled
    } else {
        BACKOFF_CAP_MS as int
    }
}

/// Statuses worth retrying.
pub fn should_retry_status(code: u16) -> (r: bool)
    ensures
        r == spec_retry_status(code),
{
    code == 429 || (500 <= code && code < 600)
}

/// Is a failure transient enough to retry?
pub fn is_retryable_failure(f: &CallFailure) -> (r: bool)
    ensures
        r == spec_retryable(*f),
{
    match f {
        CallFailure::Status { code } => should_retry_status(*code),
        CallFailure::Timeout => true,
        CallFailure::Connect => true,
        CallFailure::RequestBuild => true,
        CallFailure::OtherTransport => false,
    }
}

/// Does this failure, on this attempt, earn another try?
pub fn should_attempt_retry(attempt: u64, f: &CallFailure) -> (r: bool)
    ensures
        r == (spec_retryable(*f) && attempt < MAX_RETRIES),
{
    is_retryable_failure(f) && attempt < MAX_RETRIES
}

/// Relies on rand::random_range: a sample of the closed range it is given,
/// here the jitter band 0.8 to 1.2 in thousandths. Nothing more is assumed
/// of the value.
#[verifier::external_body]
fn sample_jitter_permille() -> (r: u64)
    ensures
        800 <= r <= 1200,
{
    rand::random_range(800u64..=1200u64)
}

/// The delay for one attempt given a jitter factor.
pub fn backoff_delay_with_jitter(attempt: u64, jitter_permille: u64) -> (d: u64)
    requires
        800 <= jitter_permille <= 1200,
    ensures
        d as int == spec_backoff_ms(attempt as int, jitter_permille as int),
{
    let capped: u64 = if attempt == 0 {
        1000
    } else if attempt == 1 {
        2000
    } else if attempt == 2 {
        4000
    } else {
        8000
    };
    let scaled = capped * jitter_permille / 1000;
    if scaled <= BACKOFF_CAP_MS {
        scaled
    } else {
        BACKOFF_CAP_MS
    }
}

/// The delay before the next attempt: exponential in the attempt number,
/// within the fixed jitter band, never above the cap.
pub fn backoff_delay_ms(attempt: u64) -> (d: u64)
    ensures
        spec_backoff_ms(attempt as int, 800) <= d as int <= spec_backoff_ms(attempt as int, 1200),
        d <= BACKOFF_CAP_MS,
{
    let jitter = sample_jitter_permille();
    let d = backoff_delay_with_jitter(attempt, jitter);
    proof {
        let c = spec_backoff_capped_ms(attempt as int);
        let j = jitter as int;
        assert(c * 800 <= c * j <= c * 1200) by (nonlinear_arith)
            requires
                800 <= j <= 1200,
                c >= 0,
        ;
        vstd::arithmetic::div_mod::lemma_div_is_ordered(c * 800, c * j, 1000);
        vstd::arithmetic::div_mod::lemma_div_is_ordered(c * j, c * 1200, 1000);
    }
    d
}


/// The structured detail every retry event carries: the attempt being
/// started (one-based, as operators count) and the delay slept before it.
pub open spec fn spec_retry_detail(attempt: int, delay_ms: int) -> Seq<char> {
    "attempt "@ + crate::text::spec_dec(attempt + 1) + " delay_ms "@ + crate::text::spec_dec(
        delay_ms,
    )
}

/// The structured detail of one retry, ready for the run monitor.
pub fn retry_detail(attempt: u64, delay_ms: u64) -> (r: String)
    requires
        attempt < u64::MAX,
    ensures
        r@ == spec_retry_detail(attempt as int, delay_ms as int),
{
    let mut out = <String as vstd::string::StringExecFns>::from_str("attempt ");
    let a = crate::text::u64_to_string(attempt + 1);
    vstd::string::StringExecFns::append(&mut out, a.as_str());
    vstd::string::StringExecFns::append(&mut out, " delay_ms ");
    let d = crate::text::u64_to_string(delay_ms);
    vstd::string::StringExecFns::append(&mut out, d.as_str());
    out
}

} // verus!
