//! Task identity and the per-task header.
//!
//! A task slot is identified by its index into the owning pool's slot
//! array; [`TaskRef`] wraps that index and is the opaque datum a waker
//! carries (waking a task is re-enqueueing exactly this reference). The
//! [`TaskHeader`] holds the two intrusive queue links, the lifecycle state
//! of the slot, and the flags that stand for the executor back-reference
//! and the pool back-pointer of the intrusive layout.

use crate::counting::{
    count_matching, lemma_chain_length_is_count, lemma_count_matching_update,
    lemma_count_matching_zero,
};
use crate::queue::{TaskFreeList, TaskFreeListEmbedItem, TaskQueueEmbedItem};
use vstd::prelude::*;

verus! {

/// A stable handle to one task slot: the slot's index in its pool.
///
/// This is the waker's opaque datum; it is copied freely and carries no
/// ownership.
#[derive(Clone, Copy, Debug, PartialEq, Eq, Structural)]
pub struct TaskRef {
    pub idx: usize,
}

impl TaskRef {
    pub fn new(idx: usize) -> (r: Self)
        ensures
            r.idx == idx,
    {
        Self { idx }
    }

    /// The opaque datum behind the handle, as a waker would carry it.
    pub fn as_ptr(&self) -> (r: usize)
        ensures
            r == self.idx,
    {
        self.idx
    }
}

/// Where a task slot stands in its lifecycle. A slot is in at most one of
/// the run queue, the free list, the executor's hands, or user code.
#[derive(Clone, Copy, Debug, PartialEq, Eq, Structural)]
pub enum TaskState {
    /// Never claimed: the pool's high-water mark has not reached the slot.
    Unused,
    /// Prepared and handed to user code; not yet spawned.
    Held,
    /// Linked into the executor's run queue.
    Queued,
    /// Currently being polled by the executor.
    Running,
    /// Suspended: waiting for a reactor completion to wake it.
    Waiting,
    /// Completed and returned to the pool's free list.
    Free,
    /// Completed in standalone storage that has no free list to return to.
    Retired,
}

/// The per-slot header: queue links, lifecycle state, and back-references.
#[derive(Clone, Copy, Debug)]
pub struct TaskHeader {
    /// Link slot used while the task is in the executor's run queue.
    pub executor_queue_item: TaskQueueEmbedItem,
    /// Link slot used while the task is in its pool's free list.
    pub task_pool_queue_item: TaskFreeListEmbedItem,
    /// Lifecycle state of the slot.
    pub state: TaskState,
    /// Whether an executor back-reference has been installed; waking is a
    /// no-op while it is absent.
    pub executor: bool,
    /// Whether the slot was pool-allocated: a pool back-pointer and a
    /// finalizer are present, so completion returns the slot to the pool.
    pub pooled: bool,
}

impl TaskHeader {
    pub fn new() -> (r: Self)
        ensures
            r.executor_queue_item.next is None,
            r.task_pool_queue_item.next is None,
            r.state == TaskState::Unused,
            !r.executor,
            !r.pooled,
    {
        Self {
            executor_queue_item: TaskQueueEmbedItem::new(),
            task_pool_queue_item: TaskFreeListEmbedItem::new(),
            state: TaskState::Unused,
            executor: false,
            pooled: false,
        }
    }
}

/// A spawned task that has not completed: it is queued, being polled, or
/// suspended. The executor's live counter counts exactly these.
pub open spec fn is_live(h: TaskHeader) -> bool {
    h.state == TaskState::Queued || h.state == TaskState::Running || h.state == TaskState::Waiting
}

/// A slot that holds a task (prepared, live, or retired), as opposed to a
/// free or never-claimed one.
pub open spec fn is_busy(h: TaskHeader) -> bool {
    h.state != TaskState::Unused && h.state != TaskState::Free
}

/// A slot whose future storage is occupied: prepared or live. A retired
/// slot stays busy but its future has been dropped.
pub open spec fn is_occupied(h: TaskHeader) -> bool {
    h.state == TaskState::Held || is_live(h)
}

/// Fixed-size storage for up to `capacity` tasks of one future type.
///
/// Allocation policy: while the high-water mark `exhaust_list_cnt` is
/// below the capacity, slots are claimed in order and the mark is bumped;
/// afterwards the free list is popped; with both exhausted, `prepare_task`
/// reports failure. Completed pool tasks are returned to the free list by
/// [`TaskPool::finalize`].
pub struct TaskPool<F> {
    /// One header per slot; the slot index is the task identity.
    pub headers: Vec<TaskHeader>,
    /// The stored future of each slot; occupied exactly while the slot is
    /// prepared or live.
    pub futures: Vec<Option<F>>,
    /// Completed slots awaiting reuse, most recently freed first.
    pub free_list: TaskFreeList,
    /// High-water mark: slots below it have been claimed at least once.
    pub exhaust_list_cnt: usize,
}

impl<F> TaskPool<F> {
    pub open spec fn capacity(&self) -> nat {
        self.headers@.len()
    }

    /// How many further `prepare_task` calls must succeed before one may
    /// report exhaustion: unclaimed slots plus freed slots.
    pub open spec fn avail(&self) -> int {
        self.capacity() - self.exhaust_list_cnt + self.free_list.items().len()
    }

    /// Number of slots occupied by a prepared, live or retired task.
    pub open spec fn busy_count(&self) -> nat {
        count_matching(self.headers@, |h: TaskHeader| is_busy(h))
    }

    /// Number of live (spawned, not yet completed) tasks in the pool.
    pub open spec fn live_count(&self) -> nat {
        count_matching(self.headers@, |h: TaskHeader| is_live(h))
    }

    /// Everything except the future-storage synchronisation: the free
    /// list spells out exactly the `Free` slots, and the high-water mark
    /// separates claimed from unclaimed slots.
    pub open spec fn wf_core(&self) -> bool {
        &&& self.futures@.len() == self.headers@.len()
        &&& self.exhaust_list_cnt <= self.headers@.len()
        &&& self.free_list.wf(self.headers@)
        &&& forall|i: int|
            self.exhaust_list_cnt <= i < self.headers@.len() ==> (#[trigger] self.headers@[i]).state
                == TaskState::Unused
        &&& forall|i: int|
            0 <= i < self.exhaust_list_cnt ==> (#[trigger] self.headers@[i]).state
                != TaskState::Unused
        &&& forall|i: int|
            0 <= i < self.headers@.len() ==> ((#[trigger] self.headers@[i]).state
                == TaskState::Free <==> self.free_list.items().contains(i as usize))
    }

    /// A slot's future storage is occupied exactly while the slot holds a
    /// prepared or live task.
    pub open spec fn futures_sync(&self) -> bool {
        forall|i: int|
            0 <= i < self.headers@.len() ==> ((#[trigger] self.futures@[i]) is Some <==> is_occupied(
                self.headers@[i],
            ))
    }

    pub open spec fn wf(&self) -> bool {
        self.wf_core() && self.futures_sync()
    }

    /// Create a pool with all slots unclaimed.
    pub fn new(capacity: usize) -> (r: Self)
        ensures
            r.wf(),
            r.capacity() == capacity,
            r.avail() == capacity,
            r.exhaust_list_cnt == 0,
            r.free_list.items().len() == 0,
            r.live_count() == 0,
            r.busy_count() == 0,
            forall|i: int| 0 <= i < capacity ==> (#[trigger] r.headers@[i]) == (TaskHeader {
                executor_queue_item: TaskQueueEmbedItem { next: None },
                task_pool_queue_item: TaskFreeListEmbedItem { next: None },
                state: TaskState::Unused,
                executor: false,
                pooled: false,
            }),
    {
        let mut headers: Vec<TaskHeader> = Vec::new();
        let mut futures: Vec<Option<F>> = Vec::new();
        let mut i: usize = 0;
        while i < capacity
            invariant
                i <= capacity,
                headers@.len() == i,
                futures@.len() == i,
                forall|j: int| 0 <= j < i ==> (#[trigger] headers@[j]) == (TaskHeader {
                    executor_queue_item: TaskQueueEmbedItem { next: None },
                    task_pool_queue_item: TaskFreeListEmbedItem { next: None },
                    state: TaskState::Unused,
                    executor: false,
                    pooled: false,
                }),
                forall|j: int| 0 <= j < i ==> (#[trigger] futures@[j]) is None,
            decreases capacity - i,
        {
            headers.push(TaskHeader::new());
            futures.push(None);
            i = i + 1;
        }
        let r = Self { headers, futures, free_list: TaskFreeList::new(), exhaust_list_cnt: 0 };
        proof {
            lemma_count_matching_zero(r.headers@, |h: TaskHeader| is_live(h));
            lemma_count_matching_zero(r.headers@, |h: TaskHeader| is_busy(h));
        }
        r
    }

    /// Claim a slot and store `future` in it, marking the slot `pooled`
    /// or not. Fails exactly when the pool is exhausted, with no side
    /// effect.
    #[verifier::rlimit(100)]
    #[verifier::spinoff_prover]
    pub(crate) fn prepare_slot(&mut self, future: F, pooled: bool) -> (r: Option<TaskRef>)
        requires
            old(self).wf(),
        ensures
            final(self).wf(),
            final(self).capacity() == old(self).capacity(),
            r is None <==> old(self).avail() == 0,
            r is None ==> *final(self) == *old(self),
            r matches Some(t) ==> {
                &&& t.idx < old(self).capacity()
                &&& !is_busy(old(self).headers@[t.idx as int])
                &&& final(self).avail() == old(self).avail() - 1
                &&& final(self).headers@[t.idx as int] == (TaskHeader {
                    state: TaskState::Held,
                    pooled,
                    ..old(self).headers@[t.idx as int]
                })
                &&& final(self).futures@ == old(self).futures@.update(t.idx as int, Some(future))
                &&& forall|j: int|
                    0 <= j < old(self).capacity() && j != t.idx ==> final(self).headers@[j] == old(self).headers@[j]
                &&& final(self).live_count() == old(self).live_count()
                &&& final(self).busy_count() == old(self).busy_count() + 1
                &&& (if old(self).exhaust_list_cnt < old(self).capacity() {
                    &&& t.idx == old(self).exhaust_list_cnt
                    &&& final(self).exhaust_list_cnt == old(self).exhaust_list_cnt + 1
                    &&& final(self).free_list.items() == old(self).free_list.items()
                } else {
                    &&& old(self).free_list.items().len() > 0
                    &&& t.idx == old(self).free_list.items()[0]
                    &&& final(self).free_list.items() == old(self).free_list.items().drop_first()
                    &&& final(self).exhaust_list_cnt == old(self).exhaust_list_cnt
                })
            },
    {
        let cap = self.headers.len();
        let slot_opt: Option<TaskRef> = if self.exhaust_list_cnt < cap {
            let i = self.exhaust_list_cnt;
            self.exhaust_list_cnt = i + 1;
            Some(TaskRef::new(i))
        } else {
            self.free_list.dequeue(&self.headers)
        };
        match slot_opt {
            None => None,
            Some(t) => {
                proof {
                    assert(self.headers.len() == self.headers@.len());
                    if old(self).exhaust_list_cnt < old(self).capacity() {
                        assert(!self.free_list.items().contains(t.idx));
                    } else {
                        assert(old(self).free_list.items()[0] == t.idx);
                        if self.free_list.items().contains(t.idx) {
                            let k = choose|k: int|
                                0 <= k < self.free_list.items().len()
                                    && self.free_list.items()[k] == t.idx;
                            assert(old(self).free_list.items()[k + 1] == t.idx);
                            assert(false);
                        }
                    }
                    assert forall|i: int|
                        0 <= i < old(self).capacity() && i != t.idx implies (#[trigger] self.free_list.items().contains(i as usize)
                        <==> old(self).free_list.items().contains(i as usize)) by {
                        if !(old(self).exhaust_list_cnt < old(self).capacity()) {
                            if self.free_list.items().contains(i as usize) {
                                let k = choose|k: int|
                                    0 <= k < self.free_list.items().len()
                                        && self.free_list.items()[k] == i as usize;
                                assert(old(self).free_list.items()[k + 1] == i as usize);
                            }
                            if old(self).free_list.items().contains(i as usize) {
                                let k = choose|k: int|
                                    0 <= k < old(self).free_list.items().len() && old(self).free_list.items()[k] == i as usize;
                                assert(i as usize != t.idx);
                                assert(k != 0);
                                assert(self.free_list.items()[k - 1] == i as usize);
                            }
                        }
                    }
                }
                let ghost pre = *self;
                let mut h = self.headers[t.idx];
                h.state = TaskState::Held;
                h.pooled = pooled;
                self.headers[t.idx] = h;
                self.futures[t.idx] = Some(future);
                proof {
                    pre.free_list.lemma_wf_frame(pre.headers@, self.headers@);
                    assert forall|i: int|
                        0 <= i < self.headers@.len() implies ((#[trigger] self.headers@[i]).state
                        == TaskState::Free <==> self.free_list.items().contains(i as usize)) by {
                        if i != t.idx {
                            assert(self.headers@[i] == pre.headers@[i]);
                            assert(self.headers@[i] == old(self).headers@[i]);
                            assert(self.free_list.items().contains(i as usize) <==> old(self).free_list.items().contains(i as usize));
                        }
                    }
                    lemma_count_matching_update(
                        pre.headers@,
                        |hh: TaskHeader| is_live(hh),
                        t.idx as int,
                        h,
                    );
                    lemma_count_matching_update(
                        pre.headers@,
                        |hh: TaskHeader| is_busy(hh),
                        t.idx as int,
                        h,
                    );
                }
                Some(t)
            },
        }
    }

    /// Consume a future, store it in an available slot, and hand back a
    /// stable task handle; `None` exactly when the pool is exhausted.
    pub fn prepare_task(&mut self, future: F) -> (r: Option<TaskRef>)
        requires
            old(self).wf(),
        ensures
            final(self).wf(),
            final(self).capacity() == old(self).capacity(),
            r is None <==> old(self).avail() == 0,
            r is None ==> *final(self) == *old(self),
            r matches Some(t) ==> {
                &&& t.idx < old(self).capacity()
                &&& !is_busy(old(self).headers@[t.idx as int])
                &&& final(self).avail() == old(self).avail() - 1
                &&& final(self).headers@[t.idx as int] == (TaskHeader {
                    state: TaskState::Held,
                    pooled: true,
                    ..old(self).headers@[t.idx as int]
                })
                &&& final(self).futures@ == old(self).futures@.update(t.idx as int, Some(future))
                &&& forall|j: int|
                    0 <= j < old(self).capacity() && j != t.idx ==> final(self).headers@[j] == old(self).headers@[j]
                &&& final(self).live_count() == old(self).live_count()
                &&& final(self).busy_count() == old(self).busy_count() + 1
                &&& (if old(self).exhaust_list_cnt < old(self).capacity() {
                    &&& t.idx == old(self).exhaust_list_cnt
                    &&& final(self).exhaust_list_cnt == old(self).exhaust_list_cnt + 1
                    &&& final(self).free_list.items() == old(self).free_list.items()
                } else {
                    &&& old(self).free_list.items().len() > 0
                    &&& t.idx == old(self).free_list.items()[0]
                    &&& final(self).free_list.items() == old(self).free_list.items().drop_first()
                    &&& final(self).exhaust_list_cnt == old(self).exhaust_list_cnt
                })
            },
    {
        self.prepare_slot(future, true)
    }

    /// Return a completed slot to the free list. The executor calls this
    /// when the slot's poll reported ready and the stored future has been
    /// dropped.
    pub fn finalize(&mut self, task: TaskRef)
        requires
            old(self).wf_core(),
            task.idx < old(self).capacity(),
            old(self).headers@[task.idx as int].state == TaskState::Running,
            old(self).futures@[task.idx as int] is None,
            old(self).futures@.len() == old(self).headers@.len(),
            forall|j: int|
                0 <= j < old(self).capacity() && j != task.idx ==> ((
                #[trigger] old(self).futures@[j]) is Some <==> is_occupied(old(self).headers@[j])),
        ensures
            final(self).wf(),
            final(self).capacity() == old(self).capacity(),
            final(self).avail() == old(self).avail() + 1,
            final(self).free_list.items() == seq![task.idx].add(old(self).free_list.items()),
            final(self).futures@ == old(self).futures@,
            final(self).headers@[task.idx as int] == (TaskHeader {
                task_pool_queue_item: TaskFreeListEmbedItem {
                    next: old(self).free_list.head,
                },
                state: TaskState::Free,
                ..old(self).headers@[task.idx as int]
            }),
            forall|j: int|
                0 <= j < old(self).capacity() && j != task.idx ==> final(self).headers@[j] == old(self).headers@[j],
            final(self).live_count() == old(self).live_count() - 1,
            final(self).exhaust_list_cnt == old(self).exhaust_list_cnt,
    {
        let ghost pre = *self;
        let mut h = self.headers[task.idx];
        h.state = TaskState::Free;
        self.headers[task.idx] = h;
        proof {
            pre.free_list.lemma_wf_frame(pre.headers@, self.headers@);
            lemma_count_matching_update(
                pre.headers@,
                |hh: TaskHeader| is_live(hh),
                task.idx as int,
                h,
            );
        }
        let ghost mid = *self;
        self.free_list.enqueue(&mut self.headers, task);
        proof {
            assert forall|i: int|
                0 <= i < self.headers@.len() implies ((#[trigger] self.headers@[i]).state
                == TaskState::Free <==> self.free_list.items().contains(i as usize)) by {
                if i == task.idx {
                    assert(self.free_list.items()[0] == task.idx);
                } else {
                    assert(self.headers.len() == self.headers@.len());
                    assert(i as usize != task.idx);
                    assert(self.headers@[i] == pre.headers@[i]);
                    if pre.free_list.items().contains(i as usize) {
                        let k = choose|k: int|
                            0 <= k < pre.free_list.items().len() && pre.free_list.items()[k]
                                == i as usize;
                        assert(self.free_list.items()[k + 1] == i as usize);
                    }
                    if self.free_list.items().contains(i as usize) {
                        let k = choose|k: int|
                            0 <= k < self.free_list.items().len() && self.free_list.items()[k]
                                == i as usize;
                        assert(k != 0);
                        assert(pre.free_list.items()[k - 1] == i as usize);
                    }
                }
            }
            assert(self.headers@ =~= mid.headers@.update(
                task.idx as int,
                self.headers@[task.idx as int],
            ));
            lemma_count_matching_update(
                mid.headers@,
                |hh: TaskHeader| is_live(hh),
                task.idx as int,
                self.headers@[task.idx as int],
            );
        }
    }

    /// The pool's capacity splits exactly into busy slots and available
    /// prepares: after any history of prepares and completions, exactly
    /// `capacity - busy` further prepares must succeed.
    pub proof fn lemma_avail_is_capacity_minus_busy(&self)
        requires
            self.wf_core(),
            self.capacity() <= usize::MAX,
        ensures
            self.avail() == self.capacity() - self.busy_count(),
    {
        let h = self.headers@;
        let n = h.len() as int;
        let cnt = self.exhaust_list_cnt as int;
        lemma_chain_length_is_count(
            self.free_list.items(),
            h,
            |hh: TaskHeader| hh.state == TaskState::Free,
        );
        lemma_count_split(h, cnt);
    }
}

/// Over claimed and unclaimed slots, busy and free counts split along the
/// high-water mark: below it every slot is busy or free, above it none is.
proof fn lemma_count_split(h: Seq<TaskHeader>, cnt: int)
    requires
        0 <= cnt <= h.len(),
        forall|i: int| cnt <= i < h.len() ==> (#[trigger] h[i]).state == TaskState::Unused,
        forall|i: int| 0 <= i < cnt ==> (#[trigger] h[i]).state != TaskState::Unused,
    ensures
        count_matching(h, |hh: TaskHeader| is_busy(hh)) + count_matching(
            h,
            |hh: TaskHeader| hh.state == TaskState::Free,
        ) == cnt,
    decreases h.len(),
{
    if h.len() > 0 {
        if cnt == h.len() {
            lemma_count_split(h.drop_last(), cnt - 1);
        } else {
            lemma_count_split(h.drop_last(), cnt);
        }
    }
}

/// Statically allocatable storage for a single task, used where no pool
/// is wanted. Completion retires the slot instead of freeing it: the
/// storage has no finalizer, exactly like standalone storage with no pool
/// back-pointer.
pub struct TaskStorage<F> {
    pub pool: TaskPool<F>,
}

impl<F> TaskStorage<F> {
    pub open spec fn wf(&self) -> bool {
        self.pool.wf() && self.pool.capacity() == 1
    }

    /// Whether the one slot is still unclaimed.
    pub open spec fn available(&self) -> bool {
        self.pool.avail() > 0
    }

    pub fn new() -> (r: Self)
        ensures
            r.wf(),
            r.available(),
            r.pool.live_count() == 0,
            r.pool.exhaust_list_cnt == 0,
            r.pool.free_list.items().len() == 0,
            r.pool.headers@.len() == 1,
            r.pool.futures@[0] is None,
            r.pool.headers@[0] == (TaskHeader {
                executor_queue_item: TaskQueueEmbedItem { next: None },
                task_pool_queue_item: TaskFreeListEmbedItem { next: None },
                state: TaskState::Unused,
                executor: false,
                pooled: false,
            }),
    {
        Self { pool: TaskPool::new(1) }
    }

    /// Store `future` in the slot and hand back the task handle. The one
    /// slot must be available; standalone storage is never reused after
    /// its task retires.
    pub fn prepare_task(&mut self, future: F) -> (t: TaskRef)
        requires
            old(self).wf(),
            old(self).available(),
        ensures
            final(self).wf(),
            final(self).pool.capacity() == 1,
            t.idx == 0,
            final(self).pool.headers@[0].state == TaskState::Held,
            !final(self).pool.headers@[0].pooled,
            final(self).pool.futures@[0] is Some,
            final(self).pool.live_count() == old(self).pool.live_count(),
    {
        let r = self.pool.prepare_slot(future, false);
        match r {
            Some(t) => {
                assert(t.idx < 1);
                t
            },
            None => {
                proof {
                    assert(false);
                }
                TaskRef::new(0)
            },
        }
    }
}

} // verus!
