use vstd::prelude::*;

use crate::config::{MAX_SYSCALL_NUM, PAGE_SIZE};
use crate::manager::{fetched, has_ready, ready_at, selected, TaskManager};
use crate::task::{advanced, TaskControlBlock, TaskStatus};

verus! {

/// A clock reading split into seconds and microseconds.
#[derive(Clone, Copy, Debug)]
pub struct TimeVal {
    pub sec: usize,
    pub usec: usize,
}

/// What `sys_task_info` reports of the calling task.
#[derive(Clone, Copy, Debug)]
pub struct TaskInfo {
    /// Task status in its life cycle.
    pub status: TaskStatus,
    /// Number of invocations of each syscall by the task.
    pub syscall_times: [u32; MAX_SYSCALL_NUM],
    /// Milliseconds since the task was created.
    pub time: usize,
}

impl TaskInfo {
    /// A record to be filled in by `sys_task_info`.
    pub fn new() -> (ti: Self)
        ensures
            ti.status == TaskStatus::Ready,
            ti.time == 0,
            forall|i: int| 0 <= i < MAX_SYSCALL_NUM ==> ti.syscall_times[i] == 0,
    {
        TaskInfo { status: TaskStatus::Ready, syscall_times: [0u32; MAX_SYSCALL_NUM], time: 0 }
    }
}

/// The task as it stands once it has been handed the CPU.
pub open spec fn dispatched(r: Option<TaskControlBlock>) -> Option<TaskControlBlock> {
    match r {
        Some(t) => Some(TaskControlBlock { status: TaskStatus::Running, ..t }),
        None => None,
    }
}

/// The task as it is put back in the ready queue when it gives up the CPU.
pub open spec fn suspended(t: TaskControlBlock) -> TaskControlBlock {
    TaskControlBlock { status: TaskStatus::Ready, ..t }
}

/// The task running now, if any, may be put back in the ready queue.
pub open spec fn current_wf(current: Option<TaskControlBlock>) -> bool {
    current matches Some(t) ==> t.wf()
}

/// Takes the next task out of the ready queue and makes it the running one; with
/// no Ready task, nothing runs.
pub fn run_next(manager: &mut TaskManager, current: &mut Option<TaskControlBlock>)
    requires
        old(manager).wf(),
    ensures
        final(manager).wf(),
        current_wf(*final(current)),
        (*final(current)) is None <==> !has_ready(old(manager)@),
        exists|next: Option<TaskControlBlock>|
            fetched(old(manager)@, final(manager)@, next) && *final(current) == dispatched(next),
{
    let next = manager.fetch();
    let ghost fetched_next = next;
    match next {
        Some(mut task) => {
            proof {
                let i = choose|i: int|
                    selected(old(manager)@, i) && task
                        == advanced(old(manager)@[i]) && manager@
                        == old(manager)@.remove(i);
                assert(old(manager)@[i].wf());
            }
            task.status = TaskStatus::Running;
            *current = Some(task);
        },
        None => {
            *current = None;
        },
    }
    assert(*current == dispatched(fetched_next));
}

/// The running task exits with `exit_code`: it is marked Exited, is not put back
/// in the ready queue, and is handed back for teardown; the next task is
/// dispatched.
pub fn sys_exit(
    manager: &mut TaskManager,
    current: &mut Option<TaskControlBlock>,
    exit_code: i32,
) -> (exited: TaskControlBlock)
    requires
        old(manager).wf(),
        (*old(current)) is Some,
    ensures
        exited == (TaskControlBlock {
            status: TaskStatus::Exited,
            exit_code,
            ..(*old(current))->0
        }),
        final(manager).wf(),
        current_wf(*final(current)),
        (*final(current)) is None <==> !has_ready(old(manager)@),
        exists|next: Option<TaskControlBlock>|
            fetched(old(manager)@, final(manager)@, next) && *final(current) == dispatched(next),
{
    let mut task = match current.take() {
        Some(t) => t,
        None => {
            proof {
                assert(false);
            }
            return TaskControlBlock::new(0, 0);
        },
    };
    task.status = TaskStatus::Exited;
    task.exit_code = exit_code;
    run_next(manager, current);
    task
}

/// The running task gives up the CPU: it goes back to the ready queue as a Ready
/// task and the next task is dispatched, which may be the same one. Returns 0.
pub fn sys_yield(manager: &mut TaskManager, current: &mut Option<TaskControlBlock>) -> (r: isize)
    requires
        old(manager).wf(),
        (*old(current)) is Some,
        current_wf(*old(current)),
    ensures
        r == 0,
        final(manager).wf(),
        current_wf(*final(current)),
        (*final(current)) is Some,
        exists|next: Option<TaskControlBlock>|
            fetched(
                old(manager)@.push(suspended((*old(current))->0)),
                final(manager)@,
                next,
            ) && *final(current) == dispatched(next),
{
    let mut task = match current.take() {
        Some(t) => t,
        None => {
            proof {
                assert(false);
            }
            return 0;
        },
    };
    task.status = TaskStatus::Ready;
    manager.add(task);
    proof {
        assert(ready_at(manager@, manager@.len() - 1));
    }
    run_next(manager, current);
    0
}

/// Splits the clock reading `us`, in microseconds, into seconds and microseconds
/// and writes them to `ts`. Returns 0.
pub fn sys_get_time(us: usize, ts: &mut TimeVal, _tz: usize) -> (r: isize)
    ensures
        r == 0,
        final(ts).sec == us / 1_000_000,
        final(ts).usec == us % 1_000_000,
        final(ts).sec * 1_000_000 + final(ts).usec == us,
        final(ts).usec < 1_000_000,
{
    *ts = TimeVal { sec: us / 1_000_000, usec: us % 1_000_000 };
    0
}

/// Writes to `ti` the status of the task `current`, the milliseconds since it was
/// created as of the clock reading `now_us`, and its syscall counters. Returns 0.
pub fn sys_task_info(current: &TaskControlBlock, now_us: usize, ti: &mut TaskInfo) -> (r: isize)
    requires
        now_us >= current.start_time,
    ensures
        r == 0,
        final(ti).status == current.status,
        final(ti).time == (now_us - current.start_time) / 1000,
        final(ti).syscall_times == current.syscall_times,
{
    ti.status = current.status;
    ti.time = (now_us - current.start_time) / 1000;
    ti.syscall_times = current.syscall_times;
    0
}

/// `start` is the first address of a page.
pub open spec fn page_aligned(start: usize) -> bool {
    start % PAGE_SIZE == 0
}

/// `port` grants some of read, write and execute (its lowest three bits) and
/// nothing else.
pub open spec fn valid_port(port: usize) -> bool {
    1 <= port <= 7
}

/// Maps `len` bytes at `start` with permissions `port` through `map`, after
/// checking the arguments: -1 for an unaligned `start` or an invalid `port`, and
/// 0, with nothing mapped, for `len == 0`.
pub fn sys_mmap<F: FnOnce(usize, usize, usize) -> isize>(
    start: usize,
    len: usize,
    port: usize,
    map: F,
) -> (r: isize)
    requires
        page_aligned(start) && valid_port(port) && len > 0 ==> map.requires((start, len, port)),
    ensures
        !page_aligned(start) ==> r == -1,
        page_aligned(start) && !valid_port(port) ==> r == -1,
        page_aligned(start) && valid_port(port) && len == 0 ==> r == 0,
        page_aligned(start) && valid_port(port) && len > 0 ==> map.ensures((start, len, port), r),
{
    if start % PAGE_SIZE != 0 {
        return -1;
    }
    let rejected = port & !0x7usize != 0 || port & 0x7usize == 0;
    assert(rejected == !(1 <= port && port <= 7)) by (bit_vector)
        requires
            rejected == (port & !0x7usize != 0 || port & 0x7usize == 0),
    ;
    if rejected {
        return -1;
    }
    if len == 0 {
        return 0;
    }
    map(start, len, port)
}

/// Unmaps `len` bytes at `start` through `unmap`, after checking the arguments:
/// -1 for an unaligned `start`, and 0, with nothing unmapped, for `len == 0`.
pub fn sys_munmap<F: FnOnce(usize, usize) -> isize>(start: usize, len: usize, unmap: F) -> (r: isize)
    requires
        page_aligned(start) && len > 0 ==> unmap.requires((start, len)),
    ensures
        !page_aligned(start) ==> r == -1,
        page_aligned(start) && len == 0 ==> r == 0,
        page_aligned(start) && len > 0 ==> unmap.ensures((start, len), r),
{
    if start % PAGE_SIZE != 0 {
        return -1;
    }
    if len == 0 {
        return 0;
    }
    unmap(start, len)
}

/// Moves the program break by `size` through `change_brk`: the previous break on
/// success, -1 when the move is refused.
pub fn sys_sbrk<F: FnOnce(i32) -> Option<usize>>(size: i32, change_brk: F) -> (r: isize)
    requires
        change_brk.requires((size,)),
    ensures
        exists|moved: Option<usize>|
            change_brk.ensures((size,), moved) && r == match moved {
                Some(old_brk) => old_brk as isize,
                None => -1isize,
            },
{
    match change_brk(size) {
        Some(old_brk) => old_brk as isize,
        None => -1,
    }
}

} // verus!
