//! The user-side library's logic: reading the clock's system call result,
//! and deciding when a sleep is over.
use vstd::prelude::*;

verus! {

/// The time in milliseconds, from the raw result `raw` of the `get_time`
/// system call.
pub fn get_time_ms(raw: isize) -> (r: usize)
    ensures
        r == raw as usize,
{
    raw as usize
}

/// One step of sleeping `ms` milliseconds from `start` (both in
/// milliseconds): at time `now`, whether to yield once more (`true`) or
/// return (`false`).
pub fn sleep_ms(start: usize, now: usize, ms: usize) -> (r: bool)
    requires
        start <= now,
    ensures
        r == (now - start < ms),
{
    now - start < ms
}

} // verus!
