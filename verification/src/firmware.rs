//! Decisions of the sampling loop that do not touch the hardware.
use vstd::prelude::*;
use crate::config::SAMPLE_INTERVAL_MS;

verus! {

/// The wait before the next sample when `elapsed_ms` have passed since the
/// previous one: the rest of the sample interval, if any.
pub open spec fn spec_sample_delay(elapsed_ms: u32) -> u32 {
    if elapsed_ms < SAMPLE_INTERVAL_MS { (SAMPLE_INTERVAL_MS - elapsed_ms) as u32 } else { 0 }
}

/// How long to wait before the next sample when `elapsed_ms` have passed
/// since the previous one: the rest of the sample interval, or nothing
/// when the interval is already over.
pub fn sample_delay_ms(elapsed_ms: u32) -> (delay: u32)
    ensures
        delay == spec_sample_delay(elapsed_ms),
{
    if elapsed_ms < SAMPLE_INTERVAL_MS {
        SAMPLE_INTERVAL_MS - elapsed_ms
    } else {
        0
    }
}

/// Samples are taken one sample interval (5 ms at 200 Hz) apart: the time
/// already elapsed plus the wait is exactly the interval when the loop is
/// early, and nothing is added once the interval has passed.
pub proof fn lemma_sample_pacing(elapsed_ms: u32)
    ensures
        SAMPLE_INTERVAL_MS == 5,
        elapsed_ms + spec_sample_delay(elapsed_ms) >= SAMPLE_INTERVAL_MS,
        elapsed_ms < SAMPLE_INTERVAL_MS ==> elapsed_ms + spec_sample_delay(elapsed_ms) == SAMPLE_INTERVAL_MS,
        elapsed_ms >= SAMPLE_INTERVAL_MS ==> spec_sample_delay(elapsed_ms) == 0,
{
}

/// The watchdog is fed once at least `feed_interval_ms` have passed since
/// it was last fed.
pub fn should_feed_watchdog(elapsed_ms: u64, feed_interval_ms: u64) -> (feed: bool)
    ensures
        feed == (elapsed_ms >= feed_interval_ms),
{
    elapsed_ms >= feed_interval_ms
}

} // verus!
