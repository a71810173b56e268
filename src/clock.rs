use vstd::prelude::*;

verus! {

/// A reading of the monotonic clock, in microseconds since it started.
#[derive(Clone, Copy, PartialEq, Eq, Structural, Debug)]
pub struct Instant {
    pub ticks: u64,
}

/// Whether at least `duration_ms` milliseconds lie between `start` and `now`.
/// A reading earlier than `start` has waited nothing.
pub open spec fn waited(start: Instant, now: Instant, duration_ms: u32) -> bool {
    start.ticks <= now.ticks && now.ticks - start.ticks >= duration_ms * 1000
}

/// One poll of a busy wait that began at `start`: whether `duration_ms`
/// milliseconds have passed by `now`. The waiting context reads the clock
/// and polls until this returns `true`.
pub fn wait(start: Instant, now: Instant, duration_ms: u32) -> (done: bool)
    ensures
        done == waited(start, now, duration_ms),
{
    let length: u64 = duration_ms as u64 * 1000;
    start.ticks <= now.ticks && now.ticks - start.ticks >= length
}

} // verus!
