use os_kernel::syscall::process::{sys_exit, sys_yield};
use os_kernel::task::model::SwitchAction;
use os_kernel::task::task::{TaskContext, TaskControlBlock, TaskManager, TaskStatus};
use os_kernel::task::{exit_and_run_next, start, suspend_and_run_next};

fn manager_with(num: usize, current: usize, statuses: [TaskStatus; 4]) -> TaskManager {
    let mut m = TaskManager::new(num, 0x1000, &[0x2000, 0x3000, 0x4000, 0x5000]);
    m.inner.current_task = current;
    for i in 0..4 {
        m.inner.tcbs[i].task_status = statuses[i];
    }
    m
}

fn statuses(m: &TaskManager) -> Vec<TaskStatus> {
    m.inner.tcbs.iter().map(|t| t.task_status).collect()
}

use TaskStatus::{Exited, Ready, Running, UnInit};

#[test]
fn task_context_keeps_registers() {
    let s = [1, 2, 3, 4, 5, 6, 7, 8, 9, 10, 11, 12];
    let cx = TaskContext::new(0x80200000, 0x80300000, s);
    assert_eq!(cx.ra(), 0x80200000);
    assert_eq!(cx.sp(), 0x80300000);
    assert_eq!(cx.saved(), s);
}

#[test]
fn uninit_block_is_blank() {
    let b = TaskControlBlock::uninit();
    assert_eq!(b.task_status, UnInit);
    assert_eq!(b.task_cx.ra(), 0);
    assert_eq!(b.task_cx.sp(), 0);
    assert_eq!(b.task_cx.saved(), [0; 12]);
}

#[test]
fn new_manager_readies_each_application() {
    let m = TaskManager::new(2, 0x1000, &[0x2000, 0x3000]);
    assert_eq!(m.num, 2);
    assert_eq!(m.get_current_app_id(), 0);
    assert_eq!(statuses(&m), vec![Ready, Ready, UnInit, UnInit]);
    assert_eq!(m.inner.tcbs[1].task_cx.ra(), 0x1000);
    assert_eq!(m.inner.tcbs[1].task_cx.sp(), 0x3000);
    assert_eq!(m.inner.tcbs[1].task_cx.saved(), [0; 12]);
    assert_eq!(m.inner.tcbs[3].task_cx.sp(), 0);
}

#[test]
fn find_a_task_skips_to_next_ready() {
    let m = manager_with(3, 0, [Running, Exited, Ready, UnInit]);
    assert_eq!(m.find_a_task(), Some(2));
}

#[test]
fn find_a_task_wraps_around() {
    let m = manager_with(4, 2, [Ready, Ready, Running, Exited]);
    assert_eq!(m.find_a_task(), Some(0));
}

#[test]
fn find_a_task_finds_none() {
    let m = manager_with(3, 1, [Exited, Running, Exited, UnInit]);
    assert_eq!(m.find_a_task(), None);
}

#[test]
fn find_a_task_picks_current_last() {
    let m = manager_with(3, 1, [Exited, Ready, Exited, UnInit]);
    assert_eq!(m.find_a_task(), Some(1));
    let m = manager_with(2, 0, [Ready, Exited, UnInit, UnInit]);
    assert_eq!(m.find_a_task(), Some(0));
    let m = manager_with(3, 1, [Exited, Ready, Ready, UnInit]);
    assert_eq!(m.find_a_task(), Some(2));
}

#[test]
fn find_a_task_single_application_picks_itself() {
    let m = manager_with(1, 0, [Ready, UnInit, UnInit, UnInit]);
    assert_eq!(m.find_a_task(), Some(0));
    let m = manager_with(1, 0, [Exited, UnInit, UnInit, UnInit]);
    assert_eq!(m.find_a_task(), None);
}

#[test]
fn suspend_and_exit_task_set_status() {
    let mut m = manager_with(3, 0, [Running, Ready, Ready, UnInit]);
    m.suspend_task(0);
    assert_eq!(statuses(&m), vec![Ready, Ready, Ready, UnInit]);
    m.exit_task(2);
    assert_eq!(statuses(&m), vec![Ready, Ready, Exited, UnInit]);
    assert_eq!(m.inner.tcbs[2].task_cx.sp(), 0x4000);
}

#[test]
fn run_first_task_runs_slot_zero() {
    let mut m = TaskManager::new(3, 0x1000, &[0x2000, 0x3000, 0x4000]);
    assert_eq!(m.run_first_task(), 0);
    assert_eq!(statuses(&m), vec![Running, Ready, Ready, UnInit]);
    assert_eq!(m.get_current_app_id(), 0);
}

#[test]
fn run_next_task_switches_or_shuts_down() {
    let mut m = manager_with(3, 0, [Ready, Exited, Ready, UnInit]);
    assert_eq!(m.run_next_task(), SwitchAction::Switch { from: 0, to: 2 });
    assert_eq!(m.get_current_app_id(), 2);
    assert_eq!(statuses(&m), vec![Ready, Exited, Running, UnInit]);
    let mut m = manager_with(2, 1, [Exited, Exited, UnInit, UnInit]);
    assert_eq!(m.run_next_task(), SwitchAction::Shutdown);
    assert_eq!(m.get_current_app_id(), 1);
}

#[test]
fn round_robin_over_three_applications() {
    let mut m = TaskManager::new(3, 0x1000, &[0x2000, 0x3000, 0x4000]);
    assert_eq!(start(&mut m), 0);
    assert_eq!(suspend_and_run_next(&mut m), SwitchAction::Switch { from: 0, to: 1 });
    assert_eq!(suspend_and_run_next(&mut m), SwitchAction::Switch { from: 1, to: 2 });
    assert_eq!(suspend_and_run_next(&mut m), SwitchAction::Switch { from: 2, to: 0 });
    assert_eq!(statuses(&m), vec![Running, Ready, Ready, UnInit]);
}

#[test]
fn exits_until_shutdown() {
    let mut m = TaskManager::new(3, 0x1000, &[0x2000, 0x3000, 0x4000]);
    start(&mut m);
    assert_eq!(exit_and_run_next(&mut m), SwitchAction::Switch { from: 0, to: 1 });
    assert_eq!(exit_and_run_next(&mut m), SwitchAction::Switch { from: 1, to: 2 });
    assert_eq!(exit_and_run_next(&mut m), SwitchAction::Shutdown);
    assert_eq!(statuses(&m), vec![Exited, Exited, Exited, UnInit]);
}

#[test]
fn single_application_yields_to_itself() {
    let mut m = TaskManager::new(1, 0x1000, &[0x2000]);
    start(&mut m);
    assert_eq!(suspend_and_run_next(&mut m), SwitchAction::Switch { from: 0, to: 0 });
    assert_eq!(statuses(&m), vec![Running, UnInit, UnInit, UnInit]);
}

#[test]
fn last_live_task_of_several_yields_to_itself() {
    let mut m = TaskManager::new(2, 0x1000, &[0x2000, 0x3000]);
    start(&mut m);
    assert_eq!(exit_and_run_next(&mut m), SwitchAction::Switch { from: 0, to: 1 });
    assert_eq!(suspend_and_run_next(&mut m), SwitchAction::Switch { from: 1, to: 1 });
    assert_eq!(statuses(&m), vec![Exited, Running, UnInit, UnInit]);
    assert_eq!(suspend_and_run_next(&mut m), SwitchAction::Switch { from: 1, to: 1 });
    assert_eq!(exit_and_run_next(&mut m), SwitchAction::Shutdown);
    assert_eq!(statuses(&m), vec![Exited, Exited, UnInit, UnInit]);
}

#[test]
fn yield_never_shuts_down() {
    let mut m = manager_with(4, 3, [Exited, Exited, Exited, Running]);
    assert_eq!(suspend_and_run_next(&mut m), SwitchAction::Switch { from: 3, to: 3 });
    assert_eq!(sys_yield(&mut m), (0, SwitchAction::Switch { from: 3, to: 3 }));
}

#[test]
fn exited_task_is_never_picked_again() {
    let mut m = TaskManager::new(3, 0x1000, &[0x2000, 0x3000, 0x4000]);
    start(&mut m);
    assert_eq!(exit_and_run_next(&mut m), SwitchAction::Switch { from: 0, to: 1 });
    for _ in 0..4 {
        let r = suspend_and_run_next(&mut m);
        assert_ne!(m.get_current_app_id(), 0);
        assert_eq!(m.inner.tcbs[0].task_status, Exited);
        assert!(matches!(r, SwitchAction::Switch { .. }));
    }
    let running = statuses(&m).iter().filter(|s| **s == Running).count();
    assert_eq!(running, 1);
}

#[test]
fn sys_yield_and_sys_exit_return_zero() {
    let mut m = TaskManager::new(2, 0x1000, &[0x2000, 0x3000]);
    start(&mut m);
    assert_eq!(sys_yield(&mut m), (0, SwitchAction::Switch { from: 0, to: 1 }));
    assert_eq!(sys_exit(&mut m, 3), (0, SwitchAction::Switch { from: 1, to: 0 }));
    assert_eq!(statuses(&m), vec![Running, Exited, UnInit, UnInit]);
}
