//! Retry policy: a fixed number of attempts with exponential backoff,
//! the delay being the base raised to the 0-based attempt number.

use vstd::prelude::*;

verus! {

/// The backoff delay in seconds after attempt `attempt` (0-based): the
/// base raised to that power, saturating at the integer limit.
pub open spec fn spec_backoff(base: u64, attempt: u32) -> u64
    decreases attempt,
{
    if attempt == 0 {
        1u64
    } else {
        let prev = spec_backoff(base, (attempt - 1) as u32);
        if prev * base <= u64::MAX {
            (prev * base) as u64
        } else {
            u64::MAX
        }
    }
}

/// Compute the backoff delay after one failed attempt. With base 1 the
/// delay is a constant second; an overflowing power saturates.
pub fn backoff_delay_s(base: u64, attempt: u32) -> (r: u64)
    ensures
        r == spec_backoff(base, attempt),
{
    let mut acc: u64 = 1;
    let mut i: u32 = 0;
    while i < attempt
        invariant
            i <= attempt,
            acc == spec_backoff(base, i),
        decreases attempt - i,
    {
        acc = match acc.checked_mul(base) {
            Some(v) => v,
            None => u64::MAX,
        };
        i = i + 1;
    }
    acc
}

/// What to do after a failed attempt.
#[derive(Clone, Copy, PartialEq, Eq, Structural, Debug)]
pub enum RetryStep {
    /// Wait this many seconds, then try again.
    Retry { delay_s: u64 },
    /// Every attempt is used up: fail the operation.
    GiveUp,
}

/// Decide what follows the failure of 0-based attempt `attempt` out of
/// `retries` allowed attempts: retry with the exponential delay while
/// attempts remain, else give up.
pub fn retry_step(attempt: u32, retries: u32, base_s: u64) -> (r: RetryStep)
    ensures
        attempt + 1 < retries ==> r == (RetryStep::Retry { delay_s: spec_backoff(base_s, attempt) }),
        attempt + 1 >= retries ==> r is GiveUp,
{
    if retries > 0 && attempt < retries - 1 {
        RetryStep::Retry { delay_s: backoff_delay_s(base_s, attempt) }
    } else {
        RetryStep::GiveUp
    }
}

} // verus!
