//! The cooperative task executor.
//!
//! A per-thread executor owns one run queue and the live-task counter
//! `spawned`. Spawning enqueues a prepared task and increments the
//! counter exactly once; a drain round polls every task that was queued
//! when the round began, and exactly the tasks whose poll reports ready
//! are finalized and decrement the counter — the wake path re-enqueues
//! without touching it. Tasks woken during a round are polled in the next
//! round; no task starves because a drain consumes the whole queue.
//!
//! The executor never blocks. The embedding program alternates
//! [`Executor::run_round`] with advancing the reactor (the run loop's
//! post-drain turn), or calls [`Executor::run`] for a
//! bounded number of rounds when no reactor turn is needed.

use crate::counting::{count_matching, lemma_cons_contains, lemma_count_matching_congruent,
    lemma_count_matching_pos, lemma_count_matching_update};
use crate::queue::TaskQueue;
use crate::reactor::Reactor;
use crate::task::{is_live, TaskHeader, TaskPool, TaskRef, TaskState};
use vstd::prelude::*;

verus! {

/// What one poll of a task reported.
#[derive(Clone, Copy, Debug, PartialEq, Eq, Structural)]
pub enum TaskPoll {
    /// The future completed; the executor finalizes the slot.
    Ready,
    /// The future suspended; a reactor completion will wake it.
    Pending,
    /// The future suspended but could not park itself (its submission
    /// was refused); re-enqueue it so the next round retries.
    PendingWake,
}

/// A pollable task body: one step of a stored future.
///
/// This is the contract the executor demands of every stored future; the
/// operation futures of this crate implement it, and embedding programs
/// implement it for their own task state machines. `task` is the task's
/// own handle, which a poll stores into requests as the waker.
pub trait TaskFuture {
    fn poll(&mut self, task: TaskRef, reactor: &mut Reactor) -> (r: TaskPoll)
        requires
            old(reactor).wf(),
        ensures
            final(reactor).wf(),
            final(reactor).ring_size == old(reactor).ring_size,
    ;
}

/// Some task in `ts[from..]` refers to slot `i`.
pub open spec fn refs_contain(ts: Seq<TaskRef>, from: int, i: int) -> bool {
    exists|k: int| from <= k < ts.len() && (#[trigger] ts[k]).idx == i
}

/// Slot `i` was re-enqueued during a round whose drained tasks were
/// `pre_items` with poll outcomes `rs`: its poll asked for a self-wake.
pub open spec fn reenqueued(pre_items: Seq<usize>, rs: Seq<TaskPoll>, i: usize) -> bool {
    exists|k: int|
        0 <= k < rs.len() && k < pre_items.len() && (#[trigger] pre_items[k]) == i && rs[k]
            == TaskPoll::PendingWake
}

/// The run queue a round leaves behind, after its first `k` polls: each
/// self-waking task is spliced back at the head as it is polled, so the
/// queue holds exactly the `PendingWake` tasks, most recently polled
/// first.
pub open spec fn wake_stack(pre_items: Seq<usize>, rs: Seq<TaskPoll>, k: int) -> Seq<usize>
    decreases k,
{
    if k <= 0 {
        Seq::empty()
    } else if rs[k - 1] == TaskPoll::PendingWake {
        seq![pre_items[k - 1]].add(wake_stack(pre_items, rs, k - 1))
    } else {
        wake_stack(pre_items, rs, k - 1)
    }
}

/// `wake_stack` reads only the first `k` outcomes.
pub proof fn lemma_wake_stack_congruent(
    pre_items: Seq<usize>,
    rs1: Seq<TaskPoll>,
    rs2: Seq<TaskPoll>,
    k: int,
)
    requires
        forall|j: int| 0 <= j < k ==> rs1[j] == rs2[j],
    ensures
        wake_stack(pre_items, rs1, k) == wake_stack(pre_items, rs2, k),
    decreases k,
{
    if k > 0 {
        lemma_wake_stack_congruent(pre_items, rs1, rs2, k - 1);
    }
}

/// The per-task footprint of one drain round: every task queued at the
/// round's start is polled exactly once, `rs[k]` being the outcome of
/// the k-th drained task (most recently enqueued first). A ready task is
/// finalized and no longer live, a pending one is suspended, a
/// self-waking one is queued again; `done` counts exactly the ready
/// polls; and the queue afterwards holds exactly the re-enqueued tasks.
pub open spec fn round_outcomes(
    pre_items: Seq<usize>,
    post_items: Seq<usize>,
    post_headers: Seq<TaskHeader>,
    rs: Seq<TaskPoll>,
    done: int,
) -> bool {
    &&& rs.len() == pre_items.len()
    &&& done == count_matching(rs, |p: TaskPoll| p == TaskPoll::Ready)
    &&& forall|k: int| 0 <= k < rs.len() ==> ((#[trigger] pre_items[k]) as int) < post_headers.len()
    &&& forall|k: int|
        0 <= k < rs.len() ==> {
            let hd = post_headers[(#[trigger] pre_items[k]) as int];
            &&& ((#[trigger] rs[k]) == TaskPoll::Ready ==> !is_live(hd))
            &&& (rs[k] == TaskPoll::Pending ==> hd.state == TaskState::Waiting)
            &&& (rs[k] == TaskPoll::PendingWake ==> hd.state == TaskState::Queued)
        }
    &&& forall|i: int|
        0 <= i < post_headers.len() ==> ((#[trigger] post_items.contains(i as usize)) <==> reenqueued(
            pre_items,
            rs,
            i as usize,
        ))
    &&& post_items == wake_stack(pre_items, rs, rs.len() as int)
}

/// The per-thread cooperative executor: one run queue and the live-task
/// counter.
pub struct Executor {
    /// Tasks awaiting their next poll.
    pub task_queue: TaskQueue,
    /// Live tasks: spawned and not yet completed. Only `spawn_task`
    /// increments it and only a ready poll decrements it.
    pub spawned: u64,
}

impl Executor {
    /// The run queue and the headers agree: the chain is well-formed,
    /// exactly the `Queued` slots are on it, and every live task carries
    /// the executor back-reference.
    pub open spec fn queue_ok(&self, headers: Seq<TaskHeader>) -> bool {
        &&& self.task_queue.wf(headers)
        &&& forall|i: int|
            0 <= i < headers.len() ==> ((#[trigger] headers[i]).state == TaskState::Queued
                <==> self.task_queue.items().contains(i as usize))
        &&& forall|i: int|
            0 <= i < headers.len() && is_live(#[trigger] headers[i]) ==> headers[i].executor
    }

    /// The live counter counts exactly the live slots.
    pub open spec fn counter_ok(&self, headers: Seq<TaskHeader>) -> bool {
        self.spawned == count_matching(headers, |h: TaskHeader| is_live(h))
    }

    pub open spec fn wf_with(&self, headers: Seq<TaskHeader>) -> bool {
        self.queue_ok(headers) && self.counter_ok(headers)
    }

    /// The live counter is an exact census: under the executor's
    /// invariant it equals the number of live tasks, because every spawn
    /// increments it with the task it enqueues and every ready poll
    /// decrements it with the task it finalizes.
    pub proof fn lemma_live_counter_exact(&self, headers: Seq<TaskHeader>)
        requires
            self.wf_with(headers),
        ensures
            self.spawned == count_matching(headers, |h: TaskHeader| is_live(h)),
    {
    }

    /// A fresh executor: empty queue, zero live tasks.
    pub fn new() -> (r: Self)
        ensures
            r.task_queue.items() == Seq::<usize>::empty(),
            r.spawned == 0,
    {
        Self { task_queue: TaskQueue::new(), spawned: 0 }
    }

    /// Install the executor back-reference and splice the task into the
    /// run queue, leaving the live counter alone. Shared by the spawn
    /// and wake paths.
    pub(crate) fn enqueue(&mut self, headers: &mut Vec<TaskHeader>, t: TaskRef)
        requires
            old(self).task_queue.wf(old(headers)@),
            t.idx < old(headers)@.len(),
            !old(self).task_queue.items().contains(t.idx),
        ensures
            final(self).task_queue.wf(final(headers)@),
            final(self).task_queue.items() == seq![t.idx].add(old(self).task_queue.items()),
            final(self).spawned == old(self).spawned,
            final(headers)@.len() == old(headers)@.len(),
            forall|j: int|
                0 <= j < old(headers)@.len() && j != t.idx ==> final(headers)@[j] == old(headers)@[j],
            final(headers)@[t.idx as int] == (TaskHeader {
                executor_queue_item: crate::queue::TaskQueueEmbedItem {
                    next: old(self).task_queue.head,
                },
                state: TaskState::Queued,
                executor: true,
                ..old(headers)@[t.idx as int]
            }),
    {
        let ghost pre_headers = headers@;
        let mut h = headers[t.idx];
        h.executor = true;
        h.state = TaskState::Queued;
        headers[t.idx] = h;
        proof {
            self.task_queue.lemma_wf_frame(pre_headers, headers@);
        }
        self.task_queue.enqueue(headers, t);
    }

    /// Spawn a prepared task: install the back-reference, enqueue it, and
    /// count it live. Every spawn increments the counter exactly once;
    /// nothing else does.
    pub fn spawn_task<F>(&mut self, pool: &mut TaskPool<F>, t: TaskRef)
        requires
            old(self).wf_with(old(pool).headers@),
            old(pool).wf(),
            t.idx < old(pool).headers@.len(),
            old(pool).headers@[t.idx as int].state == TaskState::Held,
            old(self).spawned < u64::MAX,
        ensures
            final(self).wf_with(final(pool).headers@),
            final(pool).wf(),
            final(self).spawned == old(self).spawned + 1,
            final(self).task_queue.items() == seq![t.idx].add(old(self).task_queue.items()),
            final(pool).headers@[t.idx as int].state == TaskState::Queued,
            final(pool).capacity() == old(pool).capacity(),
            final(pool).avail() == old(pool).avail(),
            final(pool).futures@ == old(pool).futures@,
            forall|j: int|
                0 <= j < old(pool).headers@.len() && j != t.idx ==> final(pool).headers@[j] == old(pool).headers@[j],
    {
        let ghost pre = *self;
        let ghost pre_pool = *pool;
        self.spawned = self.spawned + 1;
        proof {
            assert(!pre.task_queue.items().contains(t.idx));
        }
        self.enqueue(&mut pool.headers, t);
        proof {
            let ghost hs = pool.headers@;
            pre_pool.free_list.lemma_wf_frame(pre_pool.headers@, hs);
            assert forall|i: int|
                0 <= i < hs.len() implies ((#[trigger] hs[i]).state == TaskState::Free
                <==> pool.free_list.items().contains(i as usize)) by {
                if i != t.idx {
                    assert(hs[i] == pre_pool.headers@[i]);
                }
            }
            assert forall|i: int|
                0 <= i < hs.len() implies ((#[trigger] hs[i]).state == TaskState::Queued
                <==> self.task_queue.items().contains(i as usize)) by {
                lemma_cons_contains(t.idx, pre.task_queue.items(), i as usize);
                if i != t.idx {
                    assert(hs[i] == pre_pool.headers@[i]);
                    assert(pool.headers.len() == hs.len());
                    assert(i as usize != t.idx);
                }
            }
            assert(hs =~= pre_pool.headers@.update(t.idx as int, hs[t.idx as int]));
            lemma_count_matching_update(
                pre_pool.headers@,
                |h: TaskHeader| is_live(h),
                t.idx as int,
                hs[t.idx as int],
            );
        }
    }

}

impl Executor {
    /// One drain round: poll every task that is queued as the round
    /// begins. A ready task is finalized — returned to its pool's free
    /// list, or retired for standalone storage — and decrements the live
    /// counter by exactly one; a pending task suspends; a task whose
    /// submission was refused is re-enqueued for the next round. Returns
    /// how many tasks completed.
    ///
    /// Tasks enqueued during the round (by a self-wake) are polled in the
    /// next round, never twice in one.
    #[verifier::rlimit(100)]
    #[verifier::spinoff_prover]
    pub fn run_round<F: TaskFuture>(&mut self, pool: &mut TaskPool<F>, reactor: &mut Reactor) -> (done: usize)
        requires
            old(self).wf_with(old(pool).headers@),
            old(pool).wf(),
            old(reactor).wf(),
        ensures
            final(self).wf_with(final(pool).headers@),
            final(pool).wf(),
            final(reactor).wf(),
            final(reactor).ring_size == old(reactor).ring_size,
            final(pool).capacity() == old(pool).capacity(),
            done as int <= old(self).task_queue.items().len(),
            final(self).spawned == old(self).spawned - done,
            exists|rs: Seq<TaskPoll>|
                #[trigger] round_outcomes(
                    old(self).task_queue.items(),
                    final(self).task_queue.items(),
                    final(pool).headers@,
                    rs,
                    done as int,
                ),
            old(self).task_queue.items().len() == 0 ==> ({
                &&& final(self).task_queue.items() == old(self).task_queue.items()
                &&& final(self).task_queue.head == old(self).task_queue.head
                &&& final(pool).headers@ == old(pool).headers@
                &&& final(pool).futures@ == old(pool).futures@
                &&& final(pool).free_list.items() == old(pool).free_list.items()
                &&& final(pool).exhaust_list_cnt == old(pool).exhaust_list_cnt
                &&& *final(reactor) == *old(reactor)
            }),
    {
        let ghost cap = pool.headers@.len() as int;
        let ghost orig_items = self.task_queue.items();
        let tasks = self.task_queue.drain(&mut pool.headers);
        let ghost ts = tasks@;
        proof {
            pool.free_list.lemma_wf_frame(old(pool).headers@, pool.headers@);
            assert forall|i: int| 0 <= i < cap implies #[trigger] pool.headers@[i].state == old(pool).headers@[i].state by {
                if orig_items.contains(i as usize) {
                    let k = choose|k: int| 0 <= k < orig_items.len() && orig_items[k] == i as usize;
                }
            }
            assert forall|i: int|
                0 <= i < cap implies ((#[trigger] pool.headers@[i]).state == TaskState::Queued
                <==> refs_contain(ts, 0, i)) by {
                if refs_contain(ts, 0, i) {
                    let k = choose|k: int| 0 <= k < ts.len() && ts[k].idx == i;
                    assert(orig_items[k] == ts[k].idx);
                    assert(orig_items.contains(i as usize));
                }
                if pool.headers@[i].state == TaskState::Queued {
                    assert(orig_items.contains(i as usize));
                    let k = choose|k: int| 0 <= k < orig_items.len() && orig_items[k] == i as usize;
                    assert(ts[k].idx == i);
                    assert(refs_contain(ts, 0, i));
                }
            }
            assert forall|a: int, b: int| 0 <= a < b < ts.len() implies (#[trigger] ts[a]).idx != (
            #[trigger] ts[b]).idx by {
                assert(orig_items[a] == ts[a].idx);
                assert(orig_items[b] == ts[b].idx);
            }
            assert forall|a: int| 0 <= a < ts.len() implies (#[trigger] ts[a]).idx < cap by {
                assert(orig_items[a] == ts[a].idx);
            }
            lemma_count_matching_congruent(
                pool.headers@,
                old(pool).headers@,
                |hh: TaskHeader| is_live(hh),
            );
            if orig_items.len() == 0 {
                assert(pool.headers.len() == pool.headers@.len());
                assert forall|j: int|
                    0 <= j < pool.headers@.len() implies pool.headers@[j] == old(pool).headers@[j] by {
                    assert(!orig_items.contains(j as usize));
                }
                assert(pool.headers@ =~= old(pool).headers@);
                assert(self.task_queue.items() =~= orig_items);
            }
        }
        let mut done: usize = 0;
        let mut k: usize = 0;
        let ghost mut rs: Seq<TaskPoll> = Seq::empty();
        while k < tasks.len()
            invariant
                tasks@ == ts,
                k <= ts.len(),
                done <= k,
                rs.len() == k,
                orig_items.len() == ts.len(),
                forall|k2: int| 0 <= k2 < ts.len() ==> (#[trigger] ts[k2]).idx == orig_items[k2],
                done as int == count_matching(rs, |p: TaskPoll| p == TaskPoll::Ready),
                forall|k2: int|
                    0 <= k2 < k ==> {
                        let hd = pool.headers@[(#[trigger] ts[k2]).idx as int];
                        &&& ((#[trigger] rs[k2]) == TaskPoll::Ready ==> !is_live(hd))
                        &&& (rs[k2] == TaskPoll::Pending ==> hd.state == TaskState::Waiting)
                        &&& (rs[k2] == TaskPoll::PendingWake ==> hd.state == TaskState::Queued)
                    },
                forall|i: int|
                    0 <= i < cap ==> ((#[trigger] self.task_queue.items().contains(i as usize))
                        <==> reenqueued(orig_items, rs, i as usize)),
                self.task_queue.items() == wake_stack(orig_items, rs, k as int),
                orig_items.len() == 0 ==> pool.headers@ == old(pool).headers@,
                orig_items.len() == 0 ==> pool.futures@ == old(pool).futures@,
                orig_items.len() == 0 ==> pool.free_list.items() == old(pool).free_list.items(),
                orig_items.len() == 0 ==> pool.exhaust_list_cnt == old(pool).exhaust_list_cnt,
                orig_items.len() == 0 ==> self.task_queue.items() == orig_items
                    && self.task_queue.head == old(self).task_queue.head,
                orig_items.len() == 0 ==> *reactor == *old(reactor),
                forall|a: int, b: int|
                    0 <= a < b < ts.len() ==> (#[trigger] ts[a]).idx != (#[trigger] ts[b]).idx,
                forall|a: int| 0 <= a < ts.len() ==> (#[trigger] ts[a]).idx < cap,
                pool.headers@.len() == cap,
                cap == old(pool).capacity(),
                pool.capacity() == old(pool).capacity(),
                self.task_queue.wf(pool.headers@),
                pool.wf(),
                reactor.wf(),
                reactor.ring_size == old(reactor).ring_size,
                forall|i: int|
                    0 <= i < cap ==> ((#[trigger] pool.headers@[i]).state == TaskState::Queued
                        <==> (self.task_queue.items().contains(i as usize) || refs_contain(
                        ts,
                        k as int,
                        i,
                    ))),
                forall|a: int|
                    k <= a < ts.len() ==> !self.task_queue.items().contains(
                        (#[trigger] ts[a]).idx,
                    ),
                forall|i: int|
                    0 <= i < cap && is_live(#[trigger] pool.headers@[i])
                        ==> pool.headers@[i].executor,
                self.spawned == old(self).spawned - done,
                self.counter_ok(pool.headers@),
            decreases ts.len() - k,
        {
            let t = tasks[k];
            proof {
                assert(refs_contain(ts, k as int, t.idx as int));
                assert(pool.headers@[t.idx as int].state == TaskState::Queued);
            }
            let ghost snap_headers = pool.headers@;
            let mut h = pool.headers[t.idx];
            h.state = TaskState::Running;
            pool.headers[t.idx] = h;
            proof {
                assert(pool.headers@ =~= snap_headers.update(t.idx as int, h));
                self.task_queue.lemma_wf_frame(snap_headers, pool.headers@);
                pool.free_list.lemma_wf_frame(snap_headers, pool.headers@);
                lemma_count_matching_update(
                    snap_headers,
                    |hh: TaskHeader| is_live(hh),
                    t.idx as int,
                    h,
                );
            }
            let mut fut = pool.futures[t.idx].take().unwrap();
            let res = fut.poll(t, reactor);
            let ghost run_headers = pool.headers@;
            let ghost items_before = self.task_queue.items();
            match res {
                TaskPoll::Ready => {
                    proof {
                        lemma_count_matching_pos(
                            pool.headers@,
                            |hh: TaskHeader| is_live(hh),
                            t.idx as int,
                        );
                    }
                    let pooled = pool.headers[t.idx].pooled;
                    if pooled {
                        pool.finalize(t);
                        proof {
                            self.task_queue.lemma_wf_frame(run_headers, pool.headers@);
                        }
                    } else {
                        let mut h2 = pool.headers[t.idx];
                        h2.state = TaskState::Retired;
                        pool.headers[t.idx] = h2;
                        proof {
                            assert(pool.headers@ =~= run_headers.update(t.idx as int, h2));
                            self.task_queue.lemma_wf_frame(run_headers, pool.headers@);
                            pool.free_list.lemma_wf_frame(run_headers, pool.headers@);
                            lemma_count_matching_update(
                                run_headers,
                                |hh: TaskHeader| is_live(hh),
                                t.idx as int,
                                h2,
                            );
                        }
                    }
                    self.spawned = self.spawned - 1;
                    done = done + 1;
                },
                TaskPoll::Pending => {
                    pool.futures[t.idx] = Some(fut);
                    let mut h2 = pool.headers[t.idx];
                    h2.state = TaskState::Waiting;
                    pool.headers[t.idx] = h2;
                    proof {
                        assert(pool.headers@ =~= run_headers.update(t.idx as int, h2));
                        self.task_queue.lemma_wf_frame(run_headers, pool.headers@);
                        pool.free_list.lemma_wf_frame(run_headers, pool.headers@);
                        lemma_count_matching_update(
                            run_headers,
                            |hh: TaskHeader| is_live(hh),
                            t.idx as int,
                            h2,
                        );
                    }
                },
                TaskPoll::PendingWake => {
                    pool.futures[t.idx] = Some(fut);
                    self.enqueue(&mut pool.headers, t);
                    proof {
                        pool.free_list.lemma_wf_frame(run_headers, pool.headers@);
                        lemma_count_matching_update(
                            run_headers,
                            |hh: TaskHeader| is_live(hh),
                            t.idx as int,
                            pool.headers@[t.idx as int],
                        );
                        assert(pool.headers@ =~= run_headers.update(
                            t.idx as int,
                            pool.headers@[t.idx as int],
                        ));
                    }
                },
            }
            proof {
                assert forall|i: int|
                    0 <= i < cap implies ((#[trigger] pool.headers@[i]).state == TaskState::Queued
                    <==> (self.task_queue.items().contains(i as usize) || refs_contain(
                    ts,
                    k + 1int,
                    i,
                ))) by {
                    if refs_contain(ts, k + 1int, i) {
                        let a = choose|a: int| k + 1 <= a < ts.len() && ts[a].idx == i;
                        assert(refs_contain(ts, k as int, i));
                        assert(ts[a].idx != t.idx);
                    }
                    if i == t.idx {
                        if refs_contain(ts, k + 1int, i) {
                            let a = choose|a: int| k + 1 <= a < ts.len() && ts[a].idx == i;
                            assert(ts[a].idx != ts[k as int].idx);
                            assert(false);
                        }
                    } else {
                        if refs_contain(ts, k as int, i) && !refs_contain(ts, k + 1int, i) {
                            let a = choose|a: int| k <= a < ts.len() && ts[a].idx == i;
                            assert(a == k);
                            assert(false);
                        }
                        match res {
                            TaskPoll::PendingWake => {
                                lemma_cons_contains(t.idx, items_before, i as usize);
                                assert(pool.headers.len() == cap);
                                assert(i as usize != t.idx);
                            },
                            _ => {},
                        }
                    }
                }
                assert forall|a: int|
                    k + 1 <= a < ts.len() implies !self.task_queue.items().contains(
                        (#[trigger] ts[a]).idx,
                    ) by {
                    match res {
                        TaskPoll::PendingWake => {
                            assert(ts[a].idx != t.idx);
                        },
                        _ => {},
                    }
                }
                let ghost rs_old = rs;
                rs = rs.push(res);
                assert(rs.drop_last() =~= rs_old);
                assert(rs[k as int] == res);
                lemma_wake_stack_congruent(orig_items, rs_old, rs, k as int);
                assert(wake_stack(orig_items, rs, k + 1int) == (if res == TaskPoll::PendingWake {
                    seq![orig_items[k as int]].add(wake_stack(orig_items, rs, k as int))
                } else {
                    wake_stack(orig_items, rs, k as int)
                }));
                match res {
                    TaskPoll::PendingWake => {
                        assert(orig_items[k as int] == t.idx);
                        assert(self.task_queue.items() == seq![t.idx].add(items_before));
                    },
                    _ => {
                        assert(self.task_queue.items() == items_before);
                    },
                }
                assert forall|k2: int| 0 <= k2 < k + 1 implies {
                    let hd = pool.headers@[(#[trigger] ts[k2]).idx as int];
                    &&& ((#[trigger] rs[k2]) == TaskPoll::Ready ==> !is_live(hd))
                    &&& (rs[k2] == TaskPoll::Pending ==> hd.state == TaskState::Waiting)
                    &&& (rs[k2] == TaskPoll::PendingWake ==> hd.state == TaskState::Queued)
                } by {
                    if k2 < k {
                        assert(rs[k2] == rs_old[k2]);
                        assert(ts[k2].idx != ts[k as int].idx);
                        assert(pool.headers@[ts[k2].idx as int] == snap_headers[ts[k2].idx as int]);
                    } else {
                        assert(k2 == k);
                        match res {
                            TaskPoll::Ready => {
                                assert(!is_live(pool.headers@[t.idx as int]));
                            },
                            TaskPoll::Pending => {
                                assert(pool.headers@[t.idx as int].state == TaskState::Waiting);
                            },
                            TaskPoll::PendingWake => {
                                assert(pool.headers@[t.idx as int].state == TaskState::Queued);
                            },
                        }
                    }
                }
                assert forall|i: int|
                    0 <= i < cap implies ((#[trigger] self.task_queue.items().contains(i as usize))
                    <==> reenqueued(orig_items, rs, i as usize)) by {
                    if reenqueued(orig_items, rs, i as usize) {
                        let k2 = choose|k2: int|
                            0 <= k2 < rs.len() && k2 < orig_items.len() && (#[trigger] orig_items[k2])
                                == i as usize && rs[k2] == TaskPoll::PendingWake;
                        if k2 < k {
                            assert(rs_old[k2] == rs[k2]);
                            assert(reenqueued(orig_items, rs_old, i as usize));
                        } else {
                            assert(k2 == k);
                            assert(orig_items[k as int] == ts[k as int].idx);
                        }
                    }
                    if reenqueued(orig_items, rs_old, i as usize) {
                        let k2 = choose|k2: int|
                            0 <= k2 < rs_old.len() && k2 < orig_items.len() && (
                            #[trigger] orig_items[k2]) == i as usize && rs_old[k2]
                                == TaskPoll::PendingWake;
                        assert(rs[k2] == rs_old[k2]);
                        assert(reenqueued(orig_items, rs, i as usize));
                    }
                    match res {
                        TaskPoll::PendingWake => {
                            lemma_cons_contains(t.idx, items_before, i as usize);
                            if i == t.idx {
                                assert(orig_items[k as int] == t.idx);
                                assert(reenqueued(orig_items, rs, i as usize));
                            }
                        },
                        _ => {},
                    }
                }
            }
            k = k + 1;
        }
        proof {
            assert forall|i: int|
                0 <= i < cap implies ((#[trigger] pool.headers@[i]).state == TaskState::Queued
                <==> self.task_queue.items().contains(i as usize)) by {
                if refs_contain(ts, ts.len() as int, i) {
                    let a = choose|a: int| ts.len() <= a < ts.len() && ts[a].idx == i;
                }
            }
            assert forall|k2: int|
                0 <= k2 < rs.len() implies ((#[trigger] orig_items[k2]) as int)
                < pool.headers@.len() by {
                assert(ts[k2].idx == orig_items[k2]);
            }
            assert forall|k2: int| 0 <= k2 < rs.len() implies {
                let hd = pool.headers@[(#[trigger] orig_items[k2]) as int];
                &&& ((#[trigger] rs[k2]) == TaskPoll::Ready ==> !is_live(hd))
                &&& (rs[k2] == TaskPoll::Pending ==> hd.state == TaskState::Waiting)
                &&& (rs[k2] == TaskPoll::PendingWake ==> hd.state == TaskState::Queued)
            } by {
                assert(ts[k2].idx == orig_items[k2]);
            }
            assert(round_outcomes(orig_items, self.task_queue.items(), pool.headers@, rs, done as int));

        }
        done
    }

    /// Run drain rounds until no task is live, giving up after
    /// `max_rounds` rounds; the result says whether all tasks completed.
    /// The embedding program interleaves its own reactor turns between
    /// rounds instead when tasks wait on the kernel.
    pub fn run<F: TaskFuture>(&mut self, pool: &mut TaskPool<F>, reactor: &mut Reactor, max_rounds: usize) -> (finished: bool)
        requires
            old(self).wf_with(old(pool).headers@),
            old(pool).wf(),
            old(reactor).wf(),
        ensures
            final(self).wf_with(final(pool).headers@),
            final(pool).wf(),
            final(reactor).wf(),
            final(reactor).ring_size == old(reactor).ring_size,
            final(pool).capacity() == old(pool).capacity(),
            final(self).spawned <= old(self).spawned,
            finished <==> final(self).spawned == 0,
    {
        let mut r: usize = 0;
        while r < max_rounds
            invariant
                self.wf_with(pool.headers@),
                pool.wf(),
                reactor.wf(),
                reactor.ring_size == old(reactor).ring_size,
                pool.capacity() == old(pool).capacity(),
                self.spawned <= old(self).spawned,
            decreases max_rounds - r,
        {
            if self.spawned == 0 {
                return true;
            }
            self.run_round(pool, reactor);
            r = r + 1;
        }
        self.spawned == 0
    }
}

/// Wake a task by handle: re-enqueue it onto the executor recorded in
/// its header. The live counter is untouched — waking never spawns.
///
/// Waking is guarded by the task's state bits: a task that is already
/// queued, or whose slot is not suspended, or that carries no executor
/// back-reference, is left exactly as it is. Waking an already-enqueued
/// task is therefore a no-op rather than a double enqueue.
pub fn wake_task(exec: &mut Executor, headers: &mut Vec<TaskHeader>, t: TaskRef)
    requires
        old(exec).queue_ok(old(headers)@),
        t.idx < old(headers)@.len(),
    ensures
        final(exec).queue_ok(final(headers)@),
        final(exec).spawned == old(exec).spawned,
        final(headers)@.len() == old(headers)@.len(),
        count_matching(final(headers)@, |h: TaskHeader| is_live(h)) == count_matching(
            old(headers)@,
            |h: TaskHeader| is_live(h),
        ),
        (old(headers)@[t.idx as int].state == TaskState::Waiting
            && old(headers)@[t.idx as int].executor) ==> {
            &&& final(exec).task_queue.items() == seq![t.idx].add(old(exec).task_queue.items())
            &&& final(headers)@[t.idx as int].state == TaskState::Queued
            &&& forall|j: int|
                0 <= j < old(headers)@.len() && j != t.idx
                    ==> final(headers)@[j] == old(headers)@[j]
        },
        !(old(headers)@[t.idx as int].state == TaskState::Waiting
            && old(headers)@[t.idx as int].executor)
            ==> *final(exec) == *old(exec) && final(headers)@ == old(headers)@,
{
    let ghost pre = *exec;
    let ghost pre_headers = headers@;
    let h = headers[t.idx];
    let is_waiting = match h.state {
        TaskState::Waiting => true,
        _ => false,
    };
    if is_waiting && h.executor {
        proof {
            assert(!pre.task_queue.items().contains(t.idx));
        }
        exec.enqueue(headers, t);
        proof {
            assert forall|i: int|
                0 <= i < headers@.len() implies ((#[trigger] headers@[i]).state
                == TaskState::Queued <==> exec.task_queue.items().contains(i as usize)) by {
                lemma_cons_contains(t.idx, pre.task_queue.items(), i as usize);
                if i != t.idx {
                    assert(headers@[i] == pre_headers[i]);
                    assert(headers.len() == headers@.len());
                    assert(i as usize != t.idx);
                }
            }
            assert(headers@ =~= pre_headers.update(t.idx as int, headers@[t.idx as int]));
            lemma_count_matching_update(
                pre_headers,
                |hh: TaskHeader| is_live(hh),
                t.idx as int,
                headers@[t.idx as int],
            );
        }
    }
}

} // verus!
