//! Time keeping: converting timer ticks to milliseconds, and arming the
//! next time-slice interrupt.
use vstd::prelude::*;
use crate::config::{CLOCK_FREQ, INTERVAL_MS};

pub mod timer;

verus! {

/// Timer ticks per millisecond.
pub open spec fn ticks_per_ms() -> nat {
    (CLOCK_FREQ / 1000) as nat
}

/// The time in milliseconds that a reading of `ticks` timer ticks stands for.
pub open spec fn ticks_to_ms(ticks: nat) -> nat {
    ticks / ticks_per_ms()
}

/// Timer ticks in one time slice.
pub const SLICE_TICKS: usize = CLOCK_FREQ * INTERVAL_MS / 1000;

/// Timer ticks in one time slice.
pub open spec fn slice_ticks() -> nat {
    SLICE_TICKS as nat
}

/// The time in milliseconds at a timer reading of `now_ticks`.
pub fn get_time_ms(now_ticks: usize) -> (r: usize)
    ensures
        r == ticks_to_ms(now_ticks as nat),
{
    now_ticks / (CLOCK_FREQ / 1000)
}

/// Starting the timer: once the timer interrupt is enabled, the first
/// interrupt is due one time slice after `now_ticks`; returns that deadline.
pub fn start(now_ticks: usize) -> (r: usize)
    requires
        now_ticks + slice_ticks() <= usize::MAX,
    ensures
        r == now_ticks + slice_ticks(),
{
    timer::set_next_trigger(now_ticks)
}

/// Re-arming the timer from the interrupt handler: the next interrupt is
/// due one time slice after `now_ticks`; returns that deadline.
pub fn go_on(now_ticks: usize) -> (r: usize)
    requires
        now_ticks + slice_ticks() <= usize::MAX,
    ensures
        r == now_ticks + slice_ticks(),
{
    timer::set_next_trigger(now_ticks)
}

/// Reading the clock never goes backwards in milliseconds: a later reading
/// gives at least the same time.
pub proof fn lemma_time_ms_monotonic(t1: nat, t2: nat)
    requires
        t1 <= t2,
    ensures
        ticks_to_ms(t1) <= ticks_to_ms(t2),
{
    vstd::arithmetic::div_mod::lemma_div_is_ordered(t1 as int, t2 as int, ticks_per_ms() as int);
}

/// The next time-slice interrupt is due exactly `INTERVAL_MS` milliseconds
/// after the time at which it is armed.
pub proof fn lemma_slice_is_interval_ms(now_ticks: nat)
    ensures
        ticks_to_ms(now_ticks + slice_ticks()) == ticks_to_ms(now_ticks) + INTERVAL_MS,
{
    assert(slice_ticks() == INTERVAL_MS * ticks_per_ms());
    vstd::arithmetic::div_mod::lemma_hoist_over_denominator(
        now_ticks as int,
        INTERVAL_MS as int,
        ticks_per_ms(),
    );
}

} // verus!
