//! The three demonstration tasks: each counts up to its own limit and
//! reports its progress at a fixed period of the count.
use vstd::prelude::*;

verus! {

/// Relative deadline, in milliseconds, of the first task.
pub const TASK0_DEADLINE_MS: u32 = 3000;

/// Relative deadline, in milliseconds, of the second task.
pub const TASK1_DEADLINE_MS: u32 = 1000;

/// Relative deadline, in milliseconds, of the third task.
pub const TASK2_DEADLINE_MS: u32 = 500;

/// Count that the first task reaches.
pub const TASK0_ITERATIONS: u32 = 9_000_000;

/// Count that the second task reaches.
pub const TASK1_ITERATIONS: u32 = 2_000_000;

/// Count that the third task reaches.
pub const TASK2_ITERATIONS: u32 = 1_500_000;

/// A task reports its progress each time its count is a multiple of this.
pub const PROGRESS_PERIOD: u32 = 100_000;

/// Whether a task reports its progress at count `i`.
pub fn reports_progress(i: u32) -> (r: bool)
    ensures
        r == (i % PROGRESS_PERIOD == 0),
{
    i % PROGRESS_PERIOD == 0
}

/// Number of progress reports a task makes while its count goes from 1 to
/// `n` (the count is checked after each increment).
pub open spec fn progress_reports(n: nat) -> nat
    decreases n,
{
    if n == 0 {
        0
    } else {
        progress_reports((n - 1) as nat) + if n % (PROGRESS_PERIOD as nat) == 0 { 1nat } else { 0nat }
    }
}

/// A task that counts up to `limit` reports its progress once per full
/// period: `limit / PROGRESS_PERIOD` times.
pub proof fn lemma_progress_reports(limit: nat)
    ensures
        progress_reports(limit) == limit / (PROGRESS_PERIOD as nat),
    decreases limit,
{
    if limit > 0 {
        lemma_progress_reports((limit - 1) as nat);
        let n = limit as int;
        assert((n - 1) / 100000 + (if n % 100000 == 0 { 1int } else { 0int }) == n / 100000)
            by (nonlinear_arith)
            requires n > 0;
    }
}

} // verus!
