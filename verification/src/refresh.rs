//! The timing of refresh cycles.  Times are in seconds.

use vstd::prelude::*;

verus! {

/// How a refresh cycle ended.
#[derive(Clone, Copy, Debug, PartialEq, Eq, Structural)]
pub enum CycleEnd {
    /// A new snapshot was published.
    Published,
    /// The cycle failed; the snapshot of before stays.
    Failed,
    /// The cycle took too long and was given up; the snapshot of before
    /// stays.
    Abandoned,
}

/// `a + b`, or the largest number where that is too large.
pub open spec fn capped_sum(a: u64, b: u64) -> u64 {
    if a + b > u64::MAX {
        u64::MAX
    } else {
        (a + b) as u64
    }
}

/// The time by which a cycle that started at `started` must be done: the
/// refresh and the retry interval later.
pub open spec fn deadline_of(started: u64, refresh: u64, retry: u64) -> u64 {
    capped_sum(capped_sum(started, refresh), retry)
}

/// Whether a cycle that started at `started` is to be given up at `now`.
pub open spec fn overdue(started: u64, now: u64, refresh: u64, retry: u64) -> bool {
    now > deadline_of(started, refresh, retry)
}

/// When the next cycle starts: a refresh interval after a cycle that
/// published, a retry interval after one that did not.
pub open spec fn next_start_of(ended: u64, end: CycleEnd, refresh: u64, retry: u64) -> u64 {
    match end {
        CycleEnd::Published => capped_sum(ended, refresh),
        _ => capped_sum(ended, retry),
    }
}

/// Computes `capped_sum`.
pub fn add_capped(a: u64, b: u64) -> (r: u64)
    ensures
        r == capped_sum(a, b),
{
    if a > u64::MAX - b {
        u64::MAX
    } else {
        a + b
    }
}

/// Computes `deadline_of`.
pub fn deadline(started: u64, refresh: u64, retry: u64) -> (r: u64)
    ensures
        r == deadline_of(started, refresh, retry),
{
    add_capped(add_capped(started, refresh), retry)
}

/// Tests `overdue`.
pub fn is_overdue(started: u64, now: u64, refresh: u64, retry: u64) -> (r: bool)
    ensures
        r == overdue(started, now, refresh, retry),
{
    now > deadline(started, refresh, retry)
}

/// Computes `next_start_of`.
pub fn next_start(ended: u64, end: CycleEnd, refresh: u64, retry: u64) -> (r: u64)
    ensures
        r == next_start_of(ended, end, refresh, retry),
{
    match end {
        CycleEnd::Published => add_capped(ended, refresh),
        _ => add_capped(ended, retry),
    }
}

} // verus!
