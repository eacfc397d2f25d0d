use kernel_core::config::MAX_SYSCALL_NUM;
use kernel_core::manager::TaskManager;
use kernel_core::syscall::{
    run_next, sys_exit, sys_get_time, sys_mmap, sys_munmap, sys_sbrk, sys_task_info, sys_yield,
    TaskInfo, TimeVal,
};
use kernel_core::task::{TaskControlBlock, TaskStatus};

#[test]
fn get_time_splits_microseconds() {
    let mut ts = TimeVal { sec: 0, usec: 0 };
    assert_eq!(sys_get_time(3_500_123, &mut ts, 0), 0);
    assert_eq!(ts.sec, 3);
    assert_eq!(ts.usec, 500_123);
    assert_eq!(ts.sec * 1_000_000 + ts.usec, 3_500_123);
    assert_eq!(sys_get_time(999_999, &mut ts, 7), 0);
    assert_eq!((ts.sec, ts.usec), (0, 999_999));
}

#[test]
fn task_info_right_after_first_dispatch() {
    let mut m = TaskManager::new();
    m.add(TaskControlBlock::new(1, 10_000));
    let mut current = None;
    run_next(&mut m, &mut current);
    let mut t = current.unwrap();
    assert_eq!(t.status, TaskStatus::Running);
    t.record_syscall(410);
    let mut ti = TaskInfo::new();
    assert_eq!(sys_task_info(&t, 10_400, &mut ti), 0);
    assert_eq!(ti.status, TaskStatus::Running);
    assert_eq!(ti.time, 0);
    assert_eq!(ti.syscall_times[410], 1);
    assert_eq!(ti.syscall_times.iter().map(|c| *c as u64).sum::<u64>(), 1);
    assert_eq!(ti.syscall_times.len(), MAX_SYSCALL_NUM);
}

#[test]
fn task_info_reports_milliseconds() {
    let t = TaskControlBlock::new(1, 1_000);
    let mut ti = TaskInfo::new();
    assert_eq!(sys_task_info(&t, 501_999, &mut ti), 0);
    assert_eq!(ti.time, 500);
    assert_eq!(ti.status, TaskStatus::Ready);
}

#[test]
fn yield_requeues_and_dispatches_next() {
    let mut m = TaskManager::new();
    m.add(TaskControlBlock::new(1, 0));
    m.add(TaskControlBlock::new(2, 0));
    let mut current = None;
    run_next(&mut m, &mut current);
    assert_eq!(current.unwrap().pid, 1);
    assert_eq!(sys_yield(&mut m, &mut current), 0);
    let c = current.unwrap();
    assert_eq!(c.pid, 2);
    assert_eq!(c.status, TaskStatus::Running);
    assert_eq!(m.len(), 1);
    assert_eq!(sys_yield(&mut m, &mut current), 0);
    assert_eq!(current.unwrap().pid, 1);
}

#[test]
fn yield_of_the_only_task_runs_it_again() {
    let mut m = TaskManager::new();
    m.add(TaskControlBlock::new(9, 0));
    let mut current = None;
    run_next(&mut m, &mut current);
    assert_eq!(sys_yield(&mut m, &mut current), 0);
    assert_eq!(current.unwrap().pid, 9);
    assert_eq!(m.len(), 0);
}

#[test]
fn exit_drops_task_and_dispatches_next() {
    let mut m = TaskManager::new();
    m.add(TaskControlBlock::new(1, 0));
    m.add(TaskControlBlock::new(2, 0));
    let mut current = None;
    run_next(&mut m, &mut current);
    let exited = sys_exit(&mut m, &mut current, 42);
    assert_eq!(exited.pid, 1);
    assert_eq!(exited.status, TaskStatus::Exited);
    assert_eq!(exited.exit_code, 42);
    assert_eq!(current.unwrap().pid, 2);
    assert_eq!(m.len(), 0);
    let last = sys_exit(&mut m, &mut current, -1);
    assert_eq!(last.pid, 2);
    assert!(current.is_none());
}

#[test]
fn mmap_rejects_unaligned_start() {
    assert_eq!(sys_mmap(4097, 4096, 3, |_, _, _| 0), -1);
    assert_eq!(sys_mmap(1, 0, 1, |_, _, _| 0), -1);
}

#[test]
fn mmap_rejects_bad_permissions() {
    assert_eq!(sys_mmap(0x1000, 4096, 0, |_, _, _| 0), -1);
    assert_eq!(sys_mmap(0x1000, 4096, 8, |_, _, _| 0), -1);
    assert_eq!(sys_mmap(0x1000, 4096, 0x13, |_, _, _| 0), -1);
}

#[test]
fn mmap_of_zero_length_is_trivial() {
    let mut called = false;
    assert_eq!(sys_mmap(0x2000, 0, 7, |_, _, _| { called = true; -1 }), 0);
    assert!(!called);
}

#[test]
fn mmap_delegates_valid_requests() {
    let mut seen = (0, 0, 0);
    let r = sys_mmap(0x3000, 8192, 5, |s, l, p| {
        seen = (s, l, p);
        l as isize
    });
    assert_eq!(r, 8192);
    assert_eq!(seen, (0x3000, 8192, 5));
    assert_eq!(sys_mmap(0x3000, 4096, 1, |_, _, _| -1), -1);
}

#[test]
fn munmap_checks_then_delegates() {
    assert_eq!(sys_munmap(0x1001, 4096, |_, _| 0), -1);
    assert_eq!(sys_munmap(0x1000, 0, |_, _| -1), 0);
    assert_eq!(sys_munmap(0x1000, 4096, |_, l| l as isize), 4096);
    assert_eq!(sys_munmap(0x1000, 4096, |_, _| -1), -1);
}

#[test]
fn sbrk_returns_previous_break_or_minus_one() {
    assert_eq!(sys_sbrk(4096, |_| Some(0x10000)), 0x10000);
    assert_eq!(sys_sbrk(-8192, |_| None), -1);
    let mut asked = 0;
    sys_sbrk(-16, |s| {
        asked = s;
        Some(0)
    });
    assert_eq!(asked, -16);
}
