use vstd::prelude::*;

verus! {

pub const NANOS_PER_SEC: u64 = 1_000_000_000;

/// The exact length, in nanoseconds, of a span of `secs` whole seconds and
/// `subsec_nanos` further nanoseconds.
pub open spec fn span_nanos(secs: u64, subsec_nanos: u32) -> int {
    secs * NANOS_PER_SEC + subsec_nanos
}

/// The wall-clock time that passed between two iterations of the loop
/// driver, in nanoseconds, saturating at `u64::MAX`.
pub fn delta_nanos(secs: u64, subsec_nanos: u32) -> (d: u64)
    ensures
        span_nanos(secs, subsec_nanos) <= u64::MAX ==> d == span_nanos(secs, subsec_nanos),
        span_nanos(secs, subsec_nanos) > u64::MAX ==> d == u64::MAX,
{
    match secs.checked_mul(NANOS_PER_SEC) {
        Some(whole) => whole.saturating_add(subsec_nanos as u64),
        None => u64::MAX,
    }
}

} // verus!
