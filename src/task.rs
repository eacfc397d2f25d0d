use vstd::prelude::*;

use crate::config::{BIG_STRIDE, MAX_SYSCALL_NUM, MIN_PRIORITY};

verus! {

/// Where a task stands in its life cycle.
#[derive(PartialEq, Eq, Structural, Clone, Copy, Debug)]
pub enum TaskStatus {
    Ready,
    Running,
    Exited,
}

/// Priority given to a freshly created task.
pub const DEFAULT_PRIORITY: i64 = 16;

/// Per-process bookkeeping record.
#[derive(Clone, Copy, Debug)]
pub struct TaskControlBlock {
    /// Identifier of the process.
    pub pid: usize,
    pub status: TaskStatus,
    /// Scheduling weight: the larger it is, the smaller each stride step.
    pub priority: i64,
    /// Scheduling debt accumulated so far.
    pub stride: i64,
    /// Clock reading, in microseconds, when the task was created.
    pub start_time: usize,
    /// Number of invocations of each syscall, indexed by syscall id.
    pub syscall_times: [u32; MAX_SYSCALL_NUM],
    /// Code handed over by `exit`.
    pub exit_code: i32,
}

/// Amount by which one selection advances the stride of a task of this priority.
pub open spec fn stride_step(priority: i64) -> int {
    BIG_STRIDE / priority
}

/// The stride after one selection; it saturates at the largest representable value.
pub open spec fn advanced_stride(stride: i64, priority: i64) -> i64 {
    if stride + stride_step(priority) > i64::MAX {
        i64::MAX
    } else {
        (stride + stride_step(priority)) as i64
    }
}

/// The task as it stands after being selected once by the scheduler.
pub open spec fn advanced(t: TaskControlBlock) -> TaskControlBlock {
    TaskControlBlock { stride: advanced_stride(t.stride, t.priority), ..t }
}

impl TaskControlBlock {
    /// A task may be scheduled only with a priority of at least `MIN_PRIORITY`.
    pub open spec fn wf(&self) -> bool {
        self.priority >= MIN_PRIORITY
    }

    /// A new Ready task with the default priority, no scheduling debt and no
    /// syscalls counted yet.
    pub fn new(pid: usize, start_time: usize) -> (t: Self)
        ensures
            t.wf(),
            t.pid == pid,
            t.status == TaskStatus::Ready,
            t.priority == DEFAULT_PRIORITY,
            t.stride == 0,
            t.start_time == start_time,
            forall|i: int| 0 <= i < MAX_SYSCALL_NUM ==> t.syscall_times[i] == 0,
            t.exit_code == 0,
    {
        TaskControlBlock {
            pid,
            status: TaskStatus::Ready,
            priority: DEFAULT_PRIORITY,
            stride: 0,
            start_time,
            syscall_times: [0u32; MAX_SYSCALL_NUM],
            exit_code: 0,
        }
    }

    pub fn is_ready(&self) -> (r: bool)
        ensures
            r == (self.status == TaskStatus::Ready),
    {
        self.status == TaskStatus::Ready
    }

    /// Sets the priority. A priority below `MIN_PRIORITY` is rejected with -1 and
    /// leaves the task unchanged; otherwise the new priority is returned.
    pub fn set_priority(&mut self, prio: i64) -> (r: i64)
        ensures
            prio < MIN_PRIORITY ==> r == -1 && *final(self) == *old(self),
            prio >= MIN_PRIORITY ==> r == prio && *final(self) == (TaskControlBlock {
                priority: prio,
                ..*old(self)
            }),
    {
        if prio < MIN_PRIORITY {
            -1
        } else {
            self.priority = prio;
            prio
        }
    }

    /// Counts one invocation of syscall `id`; the counter saturates. An id out of
    /// range counts nothing.
    pub fn record_syscall(&mut self, id: usize)
        ensures
            final(self).pid == old(self).pid,
            final(self).status == old(self).status,
            final(self).priority == old(self).priority,
            final(self).stride == old(self).stride,
            final(self).start_time == old(self).start_time,
            final(self).exit_code == old(self).exit_code,
            forall|i: int|
                0 <= i < MAX_SYSCALL_NUM && i != id ==> final(self).syscall_times[i]
                    == old(self).syscall_times[i],
            id < MAX_SYSCALL_NUM ==> final(self).syscall_times[id as int] == (if old(
                self,
            ).syscall_times[id as int] == u32::MAX {
                u32::MAX
            } else {
                (old(self).syscall_times[id as int] + 1) as u32
            }),
    {
        if id < MAX_SYSCALL_NUM {
            let count = self.syscall_times[id];
            let bumped: u32 = if count == u32::MAX {
                count
            } else {
                count + 1
            };
            self.syscall_times[id] = bumped;
        }
    }

    /// Pays the debt of one selection: the stride grows by `BIG_STRIDE / priority`,
    /// saturating at the largest value.
    pub fn advance_stride(&mut self)
        requires
            old(self).wf(),
        ensures
            *final(self) == advanced(*old(self)),
    {
        let step: i64 = BIG_STRIDE / self.priority;
        if self.stride > i64::MAX - step {
            self.stride = i64::MAX;
        } else {
            self.stride = self.stride + step;
        }
    }
}

} // verus!
