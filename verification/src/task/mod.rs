//! Tasks: their control blocks, the round-robin task manager and the
//! operations the system calls perform on it.
use vstd::prelude::*;

pub mod loader;
pub mod model;
pub mod task;

use loader::{AppLoad, AppManager};
use model::SwitchAction;
use task::TaskManager;

verus! {

/// Number of task slots, and the largest number of applications.
pub const MAX_APP_NUM: usize = 4;

/// Number of entries of the application boundary table.
pub const APP_START_LEN: usize = MAX_APP_NUM + 1;

/// Load address of the first application.
pub const APP_BASE_ADDRESS: usize = 0x80400000;

/// Size of the memory slot of each application, in bytes.
pub const APP_SIZE_LIMIT: usize = 0x20000;

/// Size of each application's user stack, in bytes.
pub const USER_STACK_SIZE: usize = 4096 * 2;

/// Size of each application's kernel stack, in bytes.
pub const KERNEL_STACK_SIZE: usize = 4096 * 2;

/// Loading every application of the image, in order of their ids.
pub fn load_apps(app_manager: &AppManager) -> (r: Vec<AppLoad>)
    requires
        app_manager.num_app <= MAX_APP_NUM,
        forall|i: int| 0 <= i < app_manager.num_app ==> #[trigger] app_manager.image_in_order(i),
    ensures
        r@.len() == app_manager.num_app,
        forall|i: int| 0 <= i < app_manager.num_app ==> #[trigger] r@[i] == app_manager.load_spec(i),
        forall|i: int|
            0 <= i < app_manager.num_app ==> #[trigger] r@[i].src == app_manager.app_start@[i]
                && r@[i].src + r@[i].len == app_manager.app_start@[i + 1] && r@[i].dst
                == APP_BASE_ADDRESS + i * APP_SIZE_LIMIT && r@[i].clear_end == r@[i].dst
                + APP_SIZE_LIMIT,
{
    let r = loader::load_apps(app_manager);
    proof {
        assert forall|i: int| 0 <= i < app_manager.num_app implies #[trigger] r@[i].src
            == app_manager.app_start@[i] && r@[i].src + r@[i].len == app_manager.app_start@[i + 1]
            && r@[i].dst == APP_BASE_ADDRESS + i * APP_SIZE_LIMIT && r@[i].clear_end == r@[i].dst
            + APP_SIZE_LIMIT by {
            loader::lemma_load_copies_whole_image(*app_manager, i);
        }
    }
    r
}

/// The current task gives up the processor: it becomes ready, and the next
/// task in round-robin order runs.
pub fn suspend_and_run_next(manager: &mut TaskManager) -> (r: SwitchAction)
    requires
        old(manager)@.wf(),
        old(manager).num > 0,
    ensures
        (final(manager)@, r) == old(manager)@.suspend_and_run_next(),
        final(manager)@.wf(),
        r != SwitchAction::Shutdown,
        r matches SwitchAction::Switch { from, to } ==> from == old(manager).inner.current_task
            && to == final(manager).inner.current_task,
        forall|i: int|
            0 <= i < MAX_APP_NUM ==> #[trigger] final(manager).inner.tcbs@[i].task_cx
                == old(manager).inner.tcbs@[i].task_cx,
{
    let current_task = manager.get_current_app_id();
    manager.suspend_task(current_task);
    let r = manager.run_next_task();
    proof {
        model::lemma_transitions_preserve_wf(old(manager)@);
        model::lemma_yield_never_shuts_down(old(manager)@);
        model::lemma_yield_switches_in_cyclic_order(old(manager)@);
    }
    r
}

/// The current task ends: it becomes exited, and the next task in
/// round-robin order runs.
pub fn exit_and_run_next(manager: &mut TaskManager) -> (r: SwitchAction)
    requires
        old(manager)@.wf(),
        old(manager).num > 0,
    ensures
        (final(manager)@, r) == old(manager)@.exit_and_run_next(),
        final(manager)@.wf(),
        r matches SwitchAction::Switch { from, to } ==> from == old(manager).inner.current_task
            && to == final(manager).inner.current_task,
        forall|i: int|
            0 <= i < MAX_APP_NUM ==> #[trigger] final(manager).inner.tcbs@[i].task_cx
                == old(manager).inner.tcbs@[i].task_cx,
{
    let current_task = manager.get_current_app_id();
    manager.exit_task(current_task);
    let r = manager.run_next_task();
    proof {
        model::lemma_transitions_preserve_wf(old(manager)@);
        model::lemma_exit_switches_in_cyclic_order(old(manager)@);
    }
    r
}

/// Starts the first task; returns the slot whose context to resume.
pub fn start(manager: &mut TaskManager) -> (r: usize)
    ensures
        r == 0,
        final(manager)@ == old(manager)@.start(),
        final(manager).inner.current_task == 0,
        final(manager).inner.tcbs@[0].task_status == task::TaskStatus::Running,
        forall|i: int|
            0 <= i < MAX_APP_NUM ==> #[trigger] final(manager).inner.tcbs@[i].task_cx
                == old(manager).inner.tcbs@[i].task_cx,
        forall|i: int|
            1 <= i < MAX_APP_NUM ==> #[trigger] final(manager).inner.tcbs@[i]
                == old(manager).inner.tcbs@[i],
{
    manager.run_first_task()
}

} // verus!
