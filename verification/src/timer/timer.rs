//! Arming the machine timer.
use vstd::prelude::*;
use super::{slice_ticks, SLICE_TICKS};

verus! {

/// The deadline of the next time-slice interrupt, one slice after the
/// timer reading `now_ticks`; the kernel hands it to the firmware's timer.
pub fn set_next_trigger(now_ticks: usize) -> (r: usize)
    requires
        now_ticks + slice_ticks() <= usize::MAX,
    ensures
        r == now_ticks + slice_ticks(),
{
    now_ticks + SLICE_TICKS
}

} // verus!
