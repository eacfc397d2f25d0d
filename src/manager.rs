use vstd::prelude::*;

use std::collections::VecDeque;

use crate::task::{advanced, TaskControlBlock, TaskStatus};

verus! {

/// Entry `i` of the queue exists and is eligible for selection.
pub open spec fn ready_at(q: Seq<TaskControlBlock>, i: int) -> bool {
    0 <= i < q.len() && q[i].status == TaskStatus::Ready
}

/// Some entry of the queue is eligible for selection.
pub open spec fn has_ready(q: Seq<TaskControlBlock>) -> bool {
    exists|i: int| ready_at(q, i)
}

/// Entry `i` is the one stride scheduling picks: it is Ready, no Ready entry has a
/// smaller stride, and every Ready entry before it has a larger one.
pub open spec fn selected(q: Seq<TaskControlBlock>, i: int) -> bool {
    &&& ready_at(q, i)
    &&& forall|j: int| ready_at(q, j) ==> q[i].stride <= q[j].stride
    &&& forall|j: int| 0 <= j < i && ready_at(q, j) ==> q[j].stride > q[i].stride
}

/// Every queued task has a priority that stride scheduling accepts.
pub open spec fn all_wf(q: Seq<TaskControlBlock>) -> bool {
    forall|i: int| 0 <= i < q.len() ==> (#[trigger] q[i]).wf()
}

/// `r` and `q2` are what taking the next task out of queue `q` hands out and
/// leaves: nothing, with `q` unchanged, when no entry is Ready; otherwise the
/// selected entry, its stride advanced, and the queue without it.
pub open spec fn fetched(q: Seq<TaskControlBlock>, q2: Seq<TaskControlBlock>, r: Option<TaskControlBlock>) -> bool {
    match r {
        None => !has_ready(q) && q2 == q,
        Some(t) => exists|i: int| selected(q, i) && t == advanced(q[i]) && q2 == q.remove(i),
    }
}

/// At most one entry of a queue is selected.
pub proof fn lemma_selected_unique(q: Seq<TaskControlBlock>, i: int, k: int)
    requires
        selected(q, i),
        selected(q, k),
    ensures
        i == k,
{
    if i < k {
        assert(q[i].stride > q[k].stride);
    } else if k < i {
        assert(q[k].stride > q[i].stride);
    }
}

/// The ready queue of a stride scheduler.
pub struct TaskManager {
    ready_queue: VecDeque<TaskControlBlock>,
}

impl View for TaskManager {
    type V = Seq<TaskControlBlock>;

    closed spec fn view(&self) -> Seq<TaskControlBlock> {
        self.ready_queue@
    }
}

impl TaskManager {
    pub open spec fn wf(&self) -> bool {
        all_wf(self@)
    }

    /// An empty manager.
    pub fn new() -> (m: Self)
        ensures
            m.wf(),
            m@ == Seq::<TaskControlBlock>::empty(),
    {
        TaskManager { ready_queue: VecDeque::new() }
    }

    /// Number of queued tasks.
    pub fn len(&self) -> (n: usize)
        ensures
            n == self@.len(),
    {
        self.ready_queue.len()
    }

    /// Appends a task to the back of the queue.
    pub fn add(&mut self, task: TaskControlBlock)
        requires
            old(self).wf(),
            task.wf(),
        ensures
            final(self).wf(),
            final(self)@ == old(self)@.push(task),
    {
        self.ready_queue.push_back(task);
    }

    /// Takes out the Ready task with the least stride, the first in queue order
    /// among equals, and advances its stride by `BIG_STRIDE / priority` before
    /// handing it out. Without a Ready task, returns `None` and changes nothing.
    pub fn fetch(&mut self) -> (r: Option<TaskControlBlock>)
        requires
            old(self).wf(),
        ensures
            final(self).wf(),
            fetched(old(self)@, final(self)@, r),
            r is None <==> !has_ready(old(self)@),
            forall|t: TaskControlBlock| r == Some(t) ==> t.status == TaskStatus::Ready,
    {
        let n = self.ready_queue.len();
        let mut best: Option<usize> = None;
        let mut min_stride: i64 = 0;
        let mut idx: usize = 0;
        while idx < n
            invariant
                n == self@.len(),
                self@ == old(self)@,
                idx <= n,
                best is None ==> forall|j: int| 0 <= j < idx ==> !ready_at(self@, j),
                best is Some ==> {
                    let k = best->0;
                    &&& k < idx
                    &&& ready_at(self@, k as int)
                    &&& min_stride == self@[k as int].stride
                    &&& forall|j: int|
                        0 <= j < idx && ready_at(self@, j) ==> min_stride <= self@[j].stride
                    &&& forall|j: int|
                        0 <= j < k && ready_at(self@, j) ==> self@[j].stride > min_stride
                },
            decreases n - idx,
        {
            let task = &self.ready_queue[idx];
            if task.is_ready() {
                if best.is_none() || task.stride < min_stride {
                    best = Some(idx);
                    min_stride = task.stride;
                }
            }
            idx = idx + 1;
        }
        match best {
            None => None,
            Some(k) => {
                proof {
                    assert(selected(self@, k as int));
                }
                match self.ready_queue.remove(k) {
                    Some(mut task) => {
                        task.advance_stride();
                        proof {
                            assert forall|i: int| 0 <= i < self@.len() implies (
                            #[trigger] self@[i]).wf() by {
                                if i < k {
                                    assert(self@[i] == old(self)@[i]);
                                } else {
                                    assert(self@[i] == old(self)@[i + 1]);
                                }
                            }
                        }
                        Some(task)
                    },
                    None => None,
                }
            },
        }
    }
}

} // verus!
