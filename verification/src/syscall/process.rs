//! Task management system calls.
use vstd::prelude::*;
use crate::task::model::SwitchAction;
use crate::task::task::TaskManager;
use crate::task::{exit_and_run_next, suspend_and_run_next};

verus! {

/// `exit`: the calling task ends with `exit_code`, and the next ready task
/// runs. Returns the system call's result, 0, and the switch to make.
pub fn sys_exit(manager: &mut TaskManager, exit_code: i32) -> (r: (isize, SwitchAction))
    requires
        old(manager)@.wf(),
        old(manager).num > 0,
    ensures
        r.0 == 0,
        (final(manager)@, r.1) == old(manager)@.exit_and_run_next(),
        final(manager)@.wf(),
{
    let action = exit_and_run_next(manager);
    (0, action)
}

/// `yield`: the calling task gives up the processor to the next ready task.
/// Returns the system call's result, 0, and the switch to make.
pub fn sys_yield(manager: &mut TaskManager) -> (r: (isize, SwitchAction))
    requires
        old(manager)@.wf(),
        old(manager).num > 0,
    ensures
        r.0 == 0,
        (final(manager)@, r.1) == old(manager)@.suspend_and_run_next(),
        final(manager)@.wf(),
        r.1 != SwitchAction::Shutdown,
{
    let action = suspend_and_run_next(manager);
    (0, action)
}

} // verus!
