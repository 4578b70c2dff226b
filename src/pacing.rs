//! Frame pacing: how long to wait after each frame to hold the frame rate.
use vstd::prelude::*;

verus! {

/// Nanoseconds in one second.
pub const NANOS_PER_SEC: u64 = 1_000_000_000;

/// The target interval between frames at `fps` frames per second, in whole
/// nanoseconds.
pub fn frame_interval_nanos(fps: u32) -> (r: u64)
    requires
        fps > 0,
    ensures
        r == NANOS_PER_SEC as int / (fps as int),
{
    NANOS_PER_SEC / (fps as u64)
}

/// How long to sleep after an iteration that took `elapsed` nanoseconds: the
/// rest of the interval, or nothing where the iteration overran it. An overrun
/// is never made up later.
pub fn sleep_nanos(elapsed: u128, interval: u64) -> (r: u64)
    ensures
        elapsed < interval ==> r == interval - elapsed,
        elapsed >= interval ==> r == 0,
        elapsed < interval ==> elapsed + r == interval,
{
    if elapsed < interval as u128 {
        interval - elapsed as u64
    } else {
        0
    }
}

} // verus!
