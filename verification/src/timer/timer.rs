use vstd::prelude::*;

verus! {

/// Microseconds in one millisecond.
pub const MICROS_PER_MILLI: u32 = 1000;

/// Tick count of the `fugit` duration of `millis` milliseconds counted in
/// microseconds.
///
/// Calls `fugit::MicrosDurationU32::millis` and reads the result back with
/// `ticks`. The contract claims what `fugit` computes there for a duration
/// in microseconds: `1000 * millis` in `u32` arithmetic, which overflows
/// (and panics in a debug build) beyond the `requires`.
#[verifier::external_body]
fn fugit_micros_from_millis(millis: u32) -> (ticks: u32)
    requires
        millis * 1000 <= u32::MAX,
    ensures
        ticks == millis * 1000,
{
    fugit::MicrosDurationU32::millis(millis).ticks()
}

/// The alarm period, in microsecond ticks of the hardware timer, for an
/// interrupt every `interval_ms` milliseconds.
pub fn alarm_interval_ticks(interval_ms: u32) -> (ticks: u32)
    requires
        interval_ms * MICROS_PER_MILLI <= u32::MAX,
    ensures
        ticks == interval_ms * MICROS_PER_MILLI,
{
    fugit_micros_from_millis(interval_ms)
}

/// The millisecond count after one more timer interrupt.
pub fn next_elapsed_ms(elapsed_ms: u32) -> (next: u32)
    requires
        elapsed_ms < u32::MAX,
    ensures
        next == elapsed_ms + 1,
{
    elapsed_ms + 1
}

/// Whole milliseconds in `micros` microseconds, the unit of the time since
/// boot that the hardware timer counts.
pub fn to_ms(micros: u64) -> (ms: u32)
    requires
        micros / 1000 <= u32::MAX,
    ensures
        ms == micros / 1000,
{
    (micros / 1000) as u32
}

} // verus!
