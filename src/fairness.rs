use vstd::prelude::*;

use crate::manager::{fetched, lemma_selected_unique, ready_at, selected};
use crate::task::{advanced, advanced_stride, stride_step, TaskControlBlock, TaskStatus};

verus! {

/// The task that the next round hands the CPU to.
pub open spec fn picked(q: Seq<TaskControlBlock>) -> TaskControlBlock {
    q[choose|i: int| selected(q, i)]
}

/// One scheduling round: the selected task is taken out, runs, and is put back at
/// the end of the queue with its stride advanced. Without a Ready task the queue
/// stays as it is.
pub open spec fn round(q: Seq<TaskControlBlock>) -> Seq<TaskControlBlock> {
    if exists|i: int| selected(q, i) {
        let i = choose|i: int| selected(q, i);
        q.remove(i).push(advanced(q[i]))
    } else {
        q
    }
}

/// The queue after `n` rounds.
pub open spec fn rounds(q: Seq<TaskControlBlock>, n: nat) -> Seq<TaskControlBlock>
    decreases n,
{
    if n == 0 {
        q
    } else {
        round(rounds(q, (n - 1) as nat))
    }
}

/// How many of the first `n` rounds hand the CPU to the task `pid`.
pub open spec fn picks(q: Seq<TaskControlBlock>, n: nat, pid: usize) -> nat
    decreases n,
{
    if n == 0 {
        0
    } else {
        picks(q, (n - 1) as nat, pid) + if picked(rounds(q, (n - 1) as nat)).pid == pid {
            1nat
        } else {
            0nat
        }
    }
}

/// The task with its stride replaced.
pub open spec fn with_stride(t: TaskControlBlock, s: i64) -> TaskControlBlock {
    TaskControlBlock { stride: s, ..t }
}

/// The stride reached from `s` after `m` selections at priority `p`.
pub open spec fn stride_after(s: i64, p: i64, m: nat) -> i64
    decreases m,
{
    if m == 0 {
        s
    } else {
        advanced_stride(stride_after(s, p, (m - 1) as nat), p)
    }
}

/// Taking a task out with `fetch` and putting it back with `add` once it has run
/// is exactly one round.
pub proof fn lemma_fetch_then_add_is_round(
    q: Seq<TaskControlBlock>,
    q2: Seq<TaskControlBlock>,
    t: TaskControlBlock,
)
    requires
        fetched(q, q2, Some(t)),
    ensures
        q2.push(t) == round(q),
        t == advanced(picked(q)),
{
    let i = choose|i: int| selected(q, i) && t == advanced(q[i]) && q2 == q.remove(i);
    let k = choose|k: int| selected(q, k);
    lemma_selected_unique(q, i, k);
}

/// A round over two Ready tasks runs the one with the smaller stride, the first
/// one on a tie, and puts it back behind the other.
pub proof fn lemma_pair_round(x: TaskControlBlock, y: TaskControlBlock)
    requires
        x.status == TaskStatus::Ready,
        y.status == TaskStatus::Ready,
    ensures
        x.stride <= y.stride ==> picked(seq![x, y]) == x && round(seq![x, y]) == seq![y, advanced(x)],
        y.stride < x.stride ==> picked(seq![x, y]) == y && round(seq![x, y]) == seq![x, advanced(y)],
{
    let q = seq![x, y];
    assert(ready_at(q, 0) && ready_at(q, 1));
    let w: int = if x.stride <= y.stride { 0 } else { 1 };
    assert(selected(q, w));
    let k = choose|k: int| selected(q, k);
    lemma_selected_unique(q, w, k);
    if w == 0 {
        assert(q.remove(0) =~= seq![y]);
        assert(round(q) =~= seq![y, advanced(x)]);
    } else {
        assert(q.remove(1) =~= seq![x]);
        assert(round(q) =~= seq![x, advanced(y)]);
    }
}

/// A selection never lowers a stride.
pub proof fn lemma_advance_grows(s: i64, p: i64)
    requires
        p > 0,
    ensures
        s <= advanced_stride(s, p),
{
    lemma_step_nonneg(p);
}

/// Two Ready tasks of equal priority that start with equal strides are
/// selected in turn, the one first in the queue first.
pub proof fn lemma_equal_weights_alternate(a: TaskControlBlock, b: TaskControlBlock, k: nat)
    requires
        a.status == TaskStatus::Ready,
        b.status == TaskStatus::Ready,
        a.wf(),
        a.priority == b.priority,
        a.stride == b.stride,
    ensures
        picked(rounds(seq![a, b], k)) == with_stride(
            if k % 2 == 0 {
                a
            } else {
                b
            },
            stride_after(a.stride, a.priority, k / 2),
        ),
{
    lemma_pair_rounds(a, b, k / 2);
    let m = k / 2;
    let s = stride_after(a.stride, a.priority, m);
    let x = with_stride(a, s);
    let y = with_stride(b, s);
    lemma_pair_round(x, y);
    if k % 2 == 1 {
        assert(k == 2 * m + 1);
        assert(rounds(seq![a, b], k) == round(rounds(seq![a, b], 2 * m)));
        lemma_advance_grows(s, a.priority);
        lemma_pair_round(y, advanced(x));
    } else {
        assert(k == 2 * m);
    }
}

/// After every two rounds both tasks of an equal-weight pair have been selected
/// once, and the queue has its first shape again.
proof fn lemma_pair_rounds(a: TaskControlBlock, b: TaskControlBlock, m: nat)
    requires
        a.status == TaskStatus::Ready,
        b.status == TaskStatus::Ready,
        a.wf(),
        a.priority == b.priority,
        a.stride == b.stride,
    ensures
        rounds(seq![a, b], 2 * m) == seq![
            with_stride(a, stride_after(a.stride, a.priority, m)),
            with_stride(b, stride_after(a.stride, a.priority, m)),
        ],
    decreases m,
{
    if m > 0 {
        let m1 = (m - 1) as nat;
        lemma_pair_rounds(a, b, m1);
        let s = stride_after(a.stride, a.priority, m1);
        let x = with_stride(a, s);
        let y = with_stride(b, s);
        lemma_pair_round(x, y);
        lemma_advance_grows(s, a.priority);
        lemma_pair_round(y, advanced(x));
        assert(2 * m == (2 * m1 + 1) + 1);
        assert(rounds(seq![a, b], 2 * m1 + 1) == round(rounds(seq![a, b], 2 * m1)));
        assert(rounds(seq![a, b], 2 * m) == round(rounds(seq![a, b], 2 * m1 + 1)));
        assert(advanced(x) == with_stride(a, stride_after(a.stride, a.priority, m)));
        assert(advanced(y) == with_stride(b, stride_after(a.stride, a.priority, m)));
    }
}

/// The larger of the two tasks' stride steps.
pub open spec fn max_step(a: TaskControlBlock, b: TaskControlBlock) -> int {
    if stride_step(a.priority) >= stride_step(b.priority) {
        stride_step(a.priority)
    } else {
        stride_step(b.priority)
    }
}

/// The task after `c` selections, none of them saturating its stride.
spec fn after_picks(t: TaskControlBlock, c: nat) -> TaskControlBlock {
    with_stride(t, (t.stride + c * stride_step(t.priority)) as i64)
}

/// Stride fairness: of two Ready tasks that start with equal strides, each is
/// selected a number of times inversely proportional to its stride step
/// `BIG_STRIDE / priority`, hence in proportion to its priority, up to one step:
/// the distance the two have travelled differs by at most the larger step. This
/// holds while no stride reaches the largest value.
pub proof fn lemma_stride_share(a: TaskControlBlock, b: TaskControlBlock, n: nat)
    requires
        a.status == TaskStatus::Ready,
        b.status == TaskStatus::Ready,
        a.wf(),
        b.wf(),
        a.pid != b.pid,
        a.stride == b.stride,
        a.stride + n * max_step(a, b) <= i64::MAX,
    ensures
        picks(seq![a, b], n, a.pid) + picks(seq![a, b], n, b.pid) == n,
        -max_step(a, b) <= picks(seq![a, b], n, a.pid) * stride_step(a.priority) - picks(
            seq![a, b],
            n,
            b.pid,
        ) * stride_step(b.priority) <= max_step(a, b),
{
    lemma_share_rounds(a, b, n);
}

proof fn lemma_share_rounds(a: TaskControlBlock, b: TaskControlBlock, n: nat)
    requires
        a.status == TaskStatus::Ready,
        b.status == TaskStatus::Ready,
        a.wf(),
        b.wf(),
        a.pid != b.pid,
        a.stride == b.stride,
        a.stride + n * max_step(a, b) <= i64::MAX,
    ensures
        picks(seq![a, b], n, a.pid) + picks(seq![a, b], n, b.pid) == n,
        rounds(seq![a, b], n) == seq![
            after_picks(a, picks(seq![a, b], n, a.pid)),
            after_picks(b, picks(seq![a, b], n, b.pid)),
        ] || rounds(seq![a, b], n) == seq![
            after_picks(b, picks(seq![a, b], n, b.pid)),
            after_picks(a, picks(seq![a, b], n, a.pid)),
        ],
        -max_step(a, b) <= picks(seq![a, b], n, b.pid) * stride_step(b.priority) - picks(
            seq![a, b],
            n,
            a.pid,
        ) * stride_step(a.priority) <= max_step(a, b),
    decreases n,
{
    let q0 = seq![a, b];
    let ia = stride_step(a.priority);
    let ib = stride_step(b.priority);
    let mm = max_step(a, b);
    lemma_step_nonneg(a.priority);
    lemma_step_nonneg(b.priority);
    if n == 0 {
        assert(after_picks(a, 0) == a);
        assert(after_picks(b, 0) == b);
    } else {
        let n1 = (n - 1) as nat;
        assert(a.stride + n1 * mm <= i64::MAX) by (nonlinear_arith)
            requires
                a.stride + n * mm <= i64::MAX,
                n1 < n,
                mm >= 0,
        ;
        lemma_share_rounds(a, b, n1);
        let ca = picks(q0, n1, a.pid);
        let cb = picks(q0, n1, b.pid);
        let x = after_picks(a, ca);
        let y = after_picks(b, cb);
        let q = rounds(q0, n1);
        assert(ia <= mm && ib <= mm);
        assert(ca * ia <= n1 * mm && cb * ib <= n1 * mm && ca * ia >= 0 && cb * ib >= 0)
            by (nonlinear_arith)
            requires
                ca + cb == n1,
                0 <= ia <= mm,
                0 <= ib <= mm,
        ;
        assert((ca + 1) * ia == ca * ia + ia && (cb + 1) * ib == cb * ib + ib)
            by (nonlinear_arith);
        assert(n * mm == n1 * mm + mm) by (nonlinear_arith)
            requires
                n == n1 + 1,
        ;
        assert(x.stride == a.stride + ca * ia);
        assert(y.stride == b.stride + cb * ib);
        assert(advanced(x) == after_picks(a, ca + 1));
        assert(advanced(y) == after_picks(b, cb + 1));
        if q == seq![x, y] {
            lemma_pair_round(x, y);
        } else {
            lemma_pair_round(y, x);
        }
    }
}

proof fn lemma_step_nonneg(p: i64)
    requires
        p > 0,
    ensures
        stride_step(p) >= 0,
{
    assert(stride_step(p) >= 0) by (nonlinear_arith)
        requires
            p > 0,
            stride_step(p) == 1_000_000int / (p as int),
    ;
}

} // verus!
