//! Per-thread façades over the executor and reactor.
//!
//! The runtime keeps one executor and one reactor per worker thread,
//! constructed on first touch and never torn down; their static
//! references must not leave the thread. Here each façade owns its core
//! outright, and the embedding program keeps one instance per worker
//! thread and drives it only from that thread.

use crate::error::RequestError;
use crate::executor::{Executor, TaskFuture};
use crate::reactor::{Reactor, Request};
use crate::task::{TaskPool, TaskRef, TaskState};
use vstd::prelude::*;

verus! {

/// One worker thread's executor.
pub struct PerThreadExecutor {
    pub executor: Executor,
}

impl PerThreadExecutor {
    pub fn new() -> (r: Self)
        ensures
            r.executor.task_queue.items() == Seq::<usize>::empty(),
            r.executor.spawned == 0,
    {
        Self { executor: Executor::new() }
    }

    /// Spawn a prepared task on this worker's executor.
    pub fn spawn_task<F>(&mut self, pool: &mut TaskPool<F>, t: TaskRef)
        requires
            old(self).executor.wf_with(old(pool).headers@),
            old(pool).wf(),
            t.idx < old(pool).headers@.len(),
            old(pool).headers@[t.idx as int].state == TaskState::Held,
            old(self).executor.spawned < u64::MAX,
        ensures
            final(self).executor.wf_with(final(pool).headers@),
            final(pool).wf(),
            final(self).executor.spawned == old(self).executor.spawned + 1,
            final(self).executor.task_queue.items() == seq![t.idx].add(
                old(self).executor.task_queue.items(),
            ),
            final(pool).headers@[t.idx as int].state == TaskState::Queued,
            final(pool).capacity() == old(pool).capacity(),
            final(pool).avail() == old(pool).avail(),
            final(pool).futures@ == old(pool).futures@,
            forall|j: int|
                0 <= j < old(pool).headers@.len() && j != t.idx
                    ==> final(pool).headers@[j] == old(pool).headers@[j],
    {
        self.executor.spawn_task(pool, t)
    }

    /// Drive this worker's tasks for at most `max_rounds` drain rounds;
    /// the result says whether all of them completed.
    pub fn run<F: TaskFuture>(&mut self, pool: &mut TaskPool<F>, reactor: &mut Reactor, max_rounds: usize) -> (finished: bool)
        requires
            old(self).executor.wf_with(old(pool).headers@),
            old(pool).wf(),
            old(reactor).wf(),
        ensures
            final(self).executor.wf_with(final(pool).headers@),
            final(pool).wf(),
            final(reactor).wf(),
            final(reactor).ring_size == old(reactor).ring_size,
            final(pool).capacity() == old(pool).capacity(),
            final(self).executor.spawned <= old(self).executor.spawned,
            finished <==> final(self).executor.spawned == 0,
    {
        self.executor.run(pool, reactor, max_rounds)
    }
}

/// One worker thread's reactor.
pub struct PerThreadReactor {
    pub reactor: Reactor,
}

impl PerThreadReactor {
    pub fn new(entries: usize) -> (r: Self)
        ensures
            r.reactor.wf(),
            r.reactor.ring_size == entries,
            r.reactor.req_queued == 0,
            r.reactor.staged@.len() == 0,
    {
        Self { reactor: Reactor::new(entries) }
    }

    /// Submit a request on this worker's reactor.
    pub fn submit(&mut self, req: Request) -> (r: Result<u64, RequestError>)
        requires
            old(self).reactor.wf(),
        ensures
            final(self).reactor.wf(),
            final(self).reactor.ring_size == old(self).reactor.ring_size,
            r is Err <==> old(self).reactor.push_would_fail(),
            r is Err ==> *final(self) == *old(self),
            r matches Ok(rid) ==> {
                &&& rid >= 1
                &&& final(self).reactor.in_flight(rid)
                &&& final(self).reactor.request_at(rid) == (Request {
                    sentry: req.sentry,
                    return_val: None,
                    waker: req.waker,
                })
                &&& final(self).reactor.staged@ == old(self).reactor.staged@.push(
                    crate::sqe::Sqe { op: req.sentry, user_data: rid },
                )
                &&& final(self).reactor.req_queued == old(self).reactor.req_queued + 1
            },
    {
        self.reactor.submit(req)
    }

    /// Whether completions remain to be reaped.
    pub fn requires_reaping(&self) -> (r: bool)
        ensures
            r == (self.reactor.req_queued > 0),
    {
        self.reactor.requires_reaping()
    }
}

} // verus!
