//! Intrusive singly-linked LIFO queues over task slots.
//!
//! Each task header embeds two link slots, one per queue the task can be
//! on: the executor's run queue and its pool's free list. A queue itself
//! is only a head reference; enqueueing splices the head into the task's
//! embedded link. The ghost `chain` records the exact sequence of slot
//! indices reachable from the head, head first, and every operation keeps
//! it in step with the links ([`TaskQueue::wf`], [`TaskFreeList::wf`]).
//!
//! Ordering is LIFO: draining visits the most recently enqueued task
//! first. The caller must never enqueue a task that is already linked;
//! both `enqueue` operations demand that the task is not on the chain.

use crate::task::{TaskHeader, TaskRef};
use vstd::prelude::*;

verus! {

/// The run-queue link slot embedded in every task header.
#[derive(Clone, Copy, Debug)]
pub struct TaskQueueEmbedItem {
    pub next: Option<TaskRef>,
}

impl TaskQueueEmbedItem {
    pub fn new() -> (r: Self)
        ensures
            r.next is None,
    {
        Self { next: None }
    }
}

/// The free-list link slot embedded in every task header.
#[derive(Clone, Copy, Debug)]
pub struct TaskFreeListEmbedItem {
    pub next: Option<TaskRef>,
}

impl TaskFreeListEmbedItem {
    pub fn new() -> (r: Self)
        ensures
            r.next is None,
    {
        Self { next: None }
    }
}

/// The chain of slot indices `chain`, head first, is exactly what the
/// run-queue links of `headers` spell out starting from `head`.
pub open spec fn run_chain_wf(chain: Seq<usize>, head: Option<TaskRef>, headers: Seq<TaskHeader>) -> bool {
    &&& chain.no_duplicates()
    &&& forall|k: int| 0 <= k < chain.len() ==> (#[trigger] chain[k]) < headers.len()
    &&& if chain.len() == 0 {
        head is None
    } else {
        head == Some(TaskRef { idx: chain[0] })
    }
    &&& forall|k: int|
        0 <= k < chain.len() - 1 ==> headers[(#[trigger] chain[k]) as int].executor_queue_item.next
            == Some(TaskRef { idx: chain[k + 1] })
    &&& chain.len() > 0 ==> headers[chain.last() as int].executor_queue_item.next is None
}

/// Same statement for the free-list links.
pub open spec fn free_chain_wf(chain: Seq<usize>, head: Option<TaskRef>, headers: Seq<TaskHeader>) -> bool {
    &&& chain.no_duplicates()
    &&& forall|k: int| 0 <= k < chain.len() ==> (#[trigger] chain[k]) < headers.len()
    &&& if chain.len() == 0 {
        head is None
    } else {
        head == Some(TaskRef { idx: chain[0] })
    }
    &&& forall|k: int|
        0 <= k < chain.len() - 1 ==> headers[(#[trigger] chain[k]) as int].task_pool_queue_item.next
            == Some(TaskRef { idx: chain[k + 1] })
    &&& chain.len() > 0 ==> headers[chain.last() as int].task_pool_queue_item.next is None
}

/// The executor's run queue: a LIFO over the headers' run-queue links.
///
/// Not a FIFO: the drain visits the most recently enqueued task first.
/// The executor is free to schedule in any order, so this is acceptable;
/// it promises eventual progress, not fairness.
pub struct TaskQueue {
    /// The most recently enqueued task; `None` when the queue is empty.
    pub head: Option<TaskRef>,
    /// The slot indices on the queue, head first.
    pub chain: Ghost<Seq<usize>>,
}

impl TaskQueue {
    /// The slot indices on the queue, most recently enqueued first.
    pub open spec fn items(&self) -> Seq<usize> {
        self.chain@
    }

    pub open spec fn wf(&self, headers: Seq<TaskHeader>) -> bool {
        run_chain_wf(self.chain@, self.head, headers)
    }

    pub fn new() -> (r: Self)
        ensures
            r.items() == Seq::<usize>::empty(),
            r.head is None,
    {
        Self { head: None, chain: Ghost(Seq::empty()) }
    }

    /// Splice `task` in at the head. The caller must ensure the task is
    /// not already linked.
    pub fn enqueue(&mut self, headers: &mut Vec<TaskHeader>, task: TaskRef)
        requires
            old(self).wf(old(headers)@),
            task.idx < old(headers)@.len(),
            !old(self).items().contains(task.idx),
        ensures
            final(self).wf(final(headers)@),
            final(self).items() == seq![task.idx].add(old(self).items()),
            final(headers)@.len() == old(headers)@.len(),
            forall|j: int|
                0 <= j < old(headers)@.len() && j != task.idx ==> final(headers)@[j] == old(headers)@[j],
            final(headers)@[task.idx as int] == (TaskHeader {
                executor_queue_item: TaskQueueEmbedItem { next: old(self).head },
                ..old(headers)@[task.idx as int]
            }),
    {
        let prev = self.head;
        let mut h = headers[task.idx];
        h.executor_queue_item = TaskQueueEmbedItem { next: prev };
        headers[task.idx] = h;
        self.head = Some(task);
        proof {
            let c = seq![task.idx].add(self.chain@);
            assert forall|i: int, j: int| 0 <= i < j < c.len() implies c[i] != c[j] by {
                if i == 0 {
                    assert(self.chain@[j - 1] == c[j]);
                    assert(self.chain@.contains(c[j]));
                }
            }
        }
        self.chain = Ghost(seq![task.idx].add(self.chain@));
    }

    /// Unlink every task, returning them in LIFO order and resetting the
    /// queue to empty. Each returned task's link slot is cleared before it
    /// is handed back, so it is safe to re-enqueue immediately.
    pub fn drain(&mut self, headers: &mut Vec<TaskHeader>) -> (out: Vec<TaskRef>)
        requires
            old(self).wf(old(headers)@),
        ensures
            final(self).items() == Seq::<usize>::empty(),
            final(self).head is None,
            out@.len() == old(self).items().len(),
            forall|k: int| 0 <= k < out@.len() ==> (#[trigger] out@[k]).idx == old(self).items()[k],
            final(headers)@.len() == old(headers)@.len(),
            forall|j: int|
                0 <= j < old(headers)@.len() && !old(self).items().contains(j as usize) ==> final(headers)@[j] == old(headers)@[j],
            forall|k: int|
                0 <= k < old(self).items().len() ==> final(headers)@[old(self).items()[k] as int]
                    == (TaskHeader {
                    executor_queue_item: TaskQueueEmbedItem { next: None },
                    ..old(headers)@[old(self).items()[k] as int]
                }),
    {
        let ghost orig: Seq<usize> = self.chain@;
        let mut out: Vec<TaskRef> = Vec::new();
        let mut cur = self.head;
        self.head = None;
        self.chain = Ghost(Seq::empty());
        let ghost mut rem: Seq<usize> = orig;
        while cur.is_some()
            invariant
                run_chain_wf(rem, cur, headers@),
                orig.no_duplicates(),
                forall|k: int| 0 <= k < orig.len() ==> (#[trigger] orig[k]) < headers@.len(),
                out@.len() + rem.len() == orig.len(),
                forall|k: int| 0 <= k < out@.len() ==> (#[trigger] out@[k]).idx == orig[k],
                forall|k: int| 0 <= k < rem.len() ==> (#[trigger] rem[k]) == orig[out@.len() + k],
                headers@.len() == old(headers)@.len(),
                forall|j: int|
                    0 <= j < old(headers)@.len() && !orig.contains(j as usize) ==> headers@[j]
                        == old(headers)@[j],
                forall|k: int|
                    0 <= k < out@.len() ==> headers@[(#[trigger] orig[k]) as int] == (TaskHeader {
                        executor_queue_item: TaskQueueEmbedItem { next: None },
                        ..old(headers)@[orig[k] as int]
                    }),
                forall|k: int|
                    0 <= k < rem.len() ==> headers@[(#[trigger] rem[k]) as int] == old(headers)@[rem[k] as int],
            decreases rem.len(),
        {
            let t = cur.unwrap();
            let ghost hsnap: Seq<TaskHeader> = headers@;
            let ghost done: int = out@.len() as int;
            assert(rem.len() > 0 && t.idx == rem[0]);
            proof {
                assert(rem[0] == orig[done]);
                assert(headers@[t.idx as int] == old(headers)@[t.idx as int]);
            }
            let nxt = headers[t.idx].executor_queue_item.next;
            let mut h = headers[t.idx];
            h.executor_queue_item = TaskQueueEmbedItem { next: None };
            headers[t.idx] = h;
            out.push(t);
            cur = nxt;
            proof {
                assert(headers@ == hsnap.update(t.idx as int, h));
                assert forall|i: int, j: int| 0 <= i < j < rem.len() implies rem[i] != rem[j] by {
                    assert(orig[done + i] == rem[i]);
                    assert(orig[done + j] == rem[j]);
                }
                assert(t.idx == orig[done]);
                assert forall|k: int| 0 <= k < out@.len() implies headers@[(
                #[trigger] orig[k]) as int] == (TaskHeader {
                    executor_queue_item: TaskQueueEmbedItem { next: None },
                    ..old(headers)@[orig[k] as int]
                }) by {
                    if k < done {
                        assert(orig[k] != orig[done]);
                        assert(hsnap[orig[k] as int] == (TaskHeader {
                            executor_queue_item: TaskQueueEmbedItem { next: None },
                            ..old(headers)@[orig[k] as int]
                        }));
                        assert(headers@[orig[k] as int] == hsnap[orig[k] as int]);
                    } else {
                        assert(k == done);
                        assert(orig[k] == t.idx);
                        assert(headers@[orig[k] as int] == h);
                        assert(h == (TaskHeader {
                            executor_queue_item: TaskQueueEmbedItem { next: None },
                            ..old(headers)@[orig[k] as int]
                        }));
                    }
                }
                rem = rem.drop_first();
                assert forall|k: int| 0 <= k < rem.len() - 1 implies headers@[(
                    #[trigger] rem[k]) as int].executor_queue_item.next == Some(
                    TaskRef { idx: rem[k + 1] },
                ) by {}
            }
        }
        proof {
            if rem.len() > 0 {
                assert(cur == Some(TaskRef { idx: rem[0] }));
            }
        }
        out
    }
}

impl TaskQueue {
    /// Links of the chain members decide well-formedness: headers that
    /// agree on them (and on length) verify the same chains.
    pub proof fn lemma_wf_frame(self, h1: Seq<TaskHeader>, h2: Seq<TaskHeader>)
        requires
            self.wf(h1),
            h2.len() == h1.len(),
            forall|j: int|
                0 <= j < h1.len() && self.items().contains(j as usize)
                    ==> h2[j].executor_queue_item.next == h1[j].executor_queue_item.next,
        ensures
            self.wf(h2),
    {
        let c = self.items();
        assert forall|k: int|
            0 <= k < c.len() - 1 implies h2[(#[trigger] c[k]) as int].executor_queue_item.next
            == Some(TaskRef { idx: c[k + 1] }) by {
            assert(c.contains(c[k]));
        }
        if c.len() > 0 {
            assert(c.contains(c.last()));
        }
    }
}

/// A pool's free list: the same LIFO structure over the headers'
/// free-list links, consumed one slot at a time instead of drained.
pub struct TaskFreeList {
    /// The most recently freed slot; `None` when the list is empty.
    pub head: Option<TaskRef>,
    /// The slot indices on the list, head first.
    pub chain: Ghost<Seq<usize>>,
}

impl TaskFreeList {
    /// The slot indices on the list, most recently freed first.
    pub open spec fn items(&self) -> Seq<usize> {
        self.chain@
    }

    pub open spec fn wf(&self, headers: Seq<TaskHeader>) -> bool {
        free_chain_wf(self.chain@, self.head, headers)
    }

    pub fn new() -> (r: Self)
        ensures
            r.items() == Seq::<usize>::empty(),
            r.head is None,
    {
        Self { head: None, chain: Ghost(Seq::empty()) }
    }

    /// Splice `task` in at the head. The caller must ensure the task is
    /// not already linked.
    pub fn enqueue(&mut self, headers: &mut Vec<TaskHeader>, task: TaskRef)
        requires
            old(self).wf(old(headers)@),
            task.idx < old(headers)@.len(),
            !old(self).items().contains(task.idx),
        ensures
            final(self).wf(final(headers)@),
            final(self).items() == seq![task.idx].add(old(self).items()),
            final(headers)@.len() == old(headers)@.len(),
            forall|j: int|
                0 <= j < old(headers)@.len() && j != task.idx ==> final(headers)@[j] == old(headers)@[j],
            final(headers)@[task.idx as int] == (TaskHeader {
                task_pool_queue_item: TaskFreeListEmbedItem { next: old(self).head },
                ..old(headers)@[task.idx as int]
            }),
    {
        let prev = self.head;
        let mut h = headers[task.idx];
        h.task_pool_queue_item = TaskFreeListEmbedItem { next: prev };
        headers[task.idx] = h;
        self.head = Some(task);
        proof {
            let c = seq![task.idx].add(self.chain@);
            assert forall|i: int, j: int| 0 <= i < j < c.len() implies c[i] != c[j] by {
                if i == 0 {
                    assert(self.chain@[j - 1] == c[j]);
                    assert(self.chain@.contains(c[j]));
                }
            }
        }
        self.chain = Ghost(seq![task.idx].add(self.chain@));
    }

    /// Pop the most recently freed slot, if any. The popped slot's link is
    /// left as it was; the next enqueue overwrites it.
    pub fn dequeue(&mut self, headers: &Vec<TaskHeader>) -> (r: Option<TaskRef>)
        requires
            old(self).wf(headers@),
        ensures
            final(self).wf(headers@),
            old(self).items().len() == 0 ==> r is None && *final(self) == *old(self),
            old(self).items().len() > 0 ==> r == Some(TaskRef { idx: old(self).items()[0] })
                && final(self).items() == old(self).items().drop_first(),
    {
        match self.head {
            None => None,
            Some(t) => {
                let nxt = headers[t.idx].task_pool_queue_item.next;
                self.head = nxt;
                proof {
                    let c = self.chain@.drop_first();
                    assert forall|i: int, j: int| 0 <= i < j < c.len() implies c[i] != c[j] by {
                        assert(self.chain@[i + 1] == c[i]);
                        assert(self.chain@[j + 1] == c[j]);
                    }
                    assert forall|k: int| 0 <= k < c.len() - 1 implies headers@[(
                        #[trigger] c[k]) as int].task_pool_queue_item.next == Some(
                        TaskRef { idx: c[k + 1] },
                    ) by {
                        assert(self.chain@[k + 1] == c[k]);
                    }
                }
                self.chain = Ghost(self.chain@.drop_first());
                Some(t)
            },
        }
    }

    /// Links of the chain members decide well-formedness: headers that
    /// agree on them (and on length) verify the same chains.
    pub proof fn lemma_wf_frame(self, h1: Seq<TaskHeader>, h2: Seq<TaskHeader>)
        requires
            self.wf(h1),
            h2.len() == h1.len(),
            forall|j: int|
                0 <= j < h1.len() && self.items().contains(j as usize)
                    ==> h2[j].task_pool_queue_item.next == h1[j].task_pool_queue_item.next,
        ensures
            self.wf(h2),
    {
        let c = self.items();
        assert forall|k: int|
            0 <= k < c.len() - 1 implies h2[(#[trigger] c[k]) as int].task_pool_queue_item.next
            == Some(TaskRef { idx: c[k + 1] }) by {
            assert(c.contains(c[k]));
        }
        if c.len() > 0 {
            assert(c.contains(c.last()));
        }
    }
}

} // verus!
