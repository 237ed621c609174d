use os_kernel::syscall::timer::sys_get_time;
use os_kernel::task::loader::{get_base_i, load_apps as loader_load_apps, AppLoad, AppManager};
use os_kernel::task::{load_apps, APP_SIZE_LIMIT};
use os_kernel::timer::timer::set_next_trigger;
use os_kernel::timer::{get_time_ms, go_on, start};
use os_kernel::user;

#[test]
fn base_addresses_of_applications() {
    assert_eq!(get_base_i(0), 0x80400000);
    assert_eq!(get_base_i(1), 0x80420000);
    assert_eq!(get_base_i(3), 0x80460000);
    assert_eq!(get_base_i(1) - get_base_i(0), APP_SIZE_LIMIT);
}

#[test]
fn app_manager_copies_boundaries() {
    let am = AppManager::new(2, &[100, 150, 400]);
    assert_eq!(am.num_app, 2);
    assert_eq!(am.app_start, [100, 150, 400, 0, 0]);
}

#[test]
fn load_app_describes_copy() {
    let am = AppManager::new(2, &[100, 150, 400]);
    assert_eq!(
        am.load_app(1),
        AppLoad { dst: 0x80420000, clear_end: 0x80440000, src: 150, len: 250 }
    );
}

#[test]
fn load_apps_loads_each_in_order() {
    let am = AppManager::new(3, &[0x1000, 0x1800, 0x1800, 0x2400]);
    let loads = load_apps(&am);
    assert_eq!(loads, loader_load_apps(&am));
    assert_eq!(loads.len(), 3);
    assert_eq!(loads[0], AppLoad { dst: 0x80400000, clear_end: 0x80420000, src: 0x1000, len: 0x800 });
    assert_eq!(loads[1], AppLoad { dst: 0x80420000, clear_end: 0x80440000, src: 0x1800, len: 0 });
    assert_eq!(loads[2], AppLoad { dst: 0x80440000, clear_end: 0x80460000, src: 0x1800, len: 0xc00 });
}

#[test]
fn load_apps_with_no_application() {
    let am = AppManager::new(0, &[0x1000]);
    assert!(load_apps(&am).is_empty());
}

#[test]
fn ticks_to_milliseconds() {
    assert_eq!(get_time_ms(0), 0);
    assert_eq!(get_time_ms(12499), 0);
    assert_eq!(get_time_ms(12500), 1);
    assert_eq!(get_time_ms(125000), 10);
}

#[test]
fn next_trigger_is_one_slice_later() {
    assert_eq!(set_next_trigger(5), 125005);
    assert_eq!(start(1000), 126000);
    assert_eq!(go_on(0), 125000);
    let now = 987654;
    assert_eq!(get_time_ms(set_next_trigger(now)), get_time_ms(now) + 10);
}

#[test]
fn time_in_milliseconds_never_goes_back() {
    let mut last = 0;
    for t in (0..1_000_000usize).step_by(777) {
        let ms = get_time_ms(t);
        assert!(ms >= last);
        last = ms;
    }
}

#[test]
fn get_time_system_call() {
    assert_eq!(sys_get_time(25000), 2);
    assert_eq!(sys_get_time(usize::MAX), (usize::MAX / 12500) as isize);
}

#[test]
fn user_time_and_sleep() {
    assert_eq!(user::get_time_ms(42), 42);
    assert!(user::sleep_ms(100, 150, 100));
    assert!(!user::sleep_ms(100, 200, 100));
    assert!(!user::sleep_ms(100, 100, 0));
}
