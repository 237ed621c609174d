//! The clock system call.
use vstd::prelude::*;
use crate::timer::{get_time_ms, ticks_to_ms};

verus! {

/// `get_time`: the time in milliseconds at the timer reading `now_ticks`.
pub fn sys_get_time(now_ticks: usize) -> (r: isize)
    ensures
        r == ticks_to_ms(now_ticks as nat),
{
    let ms = get_time_ms(now_ticks);
    proof {
        vstd::arithmetic::div_mod::lemma_div_is_ordered(now_ticks as int, usize::MAX as int, 12500);
        assert(usize::MAX / 12500 <= isize::MAX);
    }
    ms as isize
}

} // verus!
