//! The I/O reactor: the submission/completion state machine around a
//! kernel ring of fixed entry count.
//!
//! The reactor owns a table of outstanding requests. `submit` registers a
//! request, stamps the submission's `user_data` with the request's handle
//! (table slot + 1; zero stays reserved for timeout markers) and stages
//! the entry in the outbox. The embedding program moves staged entries to
//! the kernel with [`Reactor::take_staged`], performs the blocking
//! submit-and-wait, and feeds the completion entries it reaped back into
//! [`Reactor::flush_completions`], which writes each result into its
//! request and wakes the stored waker. An operation future later collects
//! the result with [`Reactor::take_result`], which releases the table
//! slot.
//!
//! `req_queued` counts the submitted requests whose completion has not
//! yet been dispatched; once it reaches the ring size, `submit` reports a
//! push failure and the caller retries after the ring has been reaped.

use crate::counting::{count_matching, lemma_cons_contains, lemma_count_matching_concat, lemma_count_matching_pos,
    lemma_count_matching_update, lemma_count_matching_zero};
use crate::error::RequestError;
use crate::executor::{wake_task, Executor};
use crate::sqe::{Cqe, Op, Sqe, EAGAIN, EBUSY, EINTR, ETIME};
use crate::task::{TaskHeader, TaskRef, TaskState};
use vstd::prelude::*;

verus! {

/// One reactor request: the prebuilt submission payload, the return slot
/// that completion dispatch fills, and the waker to fire when it does.
#[derive(Clone, Copy, Debug)]
pub struct Request {
    pub sentry: Op,
    pub return_val: Option<i32>,
    pub waker: Option<TaskRef>,
}

impl Request {
    pub fn new(sentry: Op) -> (r: Self)
        ensures
            r.sentry == sentry,
            r.return_val is None,
            r.waker is None,
    {
        Self { sentry, return_val: None, waker: None }
    }
}

/// A request slot holding a request whose completion has not yet been
/// dispatched.
pub open spec fn slot_in_flight(o: Option<Request>) -> bool {
    o is Some && o->0.return_val is None
}

/// Some timeout marker in `cqes` carries `-ETIME`: an awaited deadline
/// passed.
pub open spec fn batch_etime(cqes: Seq<Cqe>) -> bool {
    exists|k: int|
        0 <= k < cqes.len() && (#[trigger] cqes[k]).user_data == 0 && cqes[k].result == -ETIME
}

/// `cqes` holds a completion stamped with handle `rid`.
pub open spec fn batch_contains(cqes: Seq<Cqe>, rid: u64) -> bool {
    exists|k: int| 0 <= k < cqes.len() && (#[trigger] cqes[k]).user_data == rid
}

/// Dispatching `cqes` against the reactor state `pre` fires a waker
/// carrying slot `i`.
pub open spec fn batch_wakes(pre: Reactor, cqes: Seq<Cqe>, i: int) -> bool {
    exists|k: int|
        0 <= k < cqes.len() && (#[trigger] cqes[k]).user_data != 0 && pre.in_flight(
            cqes[k].user_data,
        ) && pre.request_at(cqes[k].user_data).waker == Some(TaskRef { idx: i as usize })
}

/// What the bounded wait does next: push one more absolute timeout
/// marker and wait, keep draining the markers already in flight, or
/// stop.
#[derive(Clone, Copy, Debug, PartialEq, Eq, Structural)]
pub enum WaitStep {
    PushMarker { sec: u64, nsec: u32 },
    Drain,
    Done,
}

/// One decision of the bounded-wait loop (`run_for_ns`): until the
/// deadline's `-ETIME` has been seen, push a marker whose absolute
/// deadline is now plus the wait and block for a completion; after it,
/// drain until every marker posted along the way has come back; then the
/// wait is over.
pub fn run_for_ns_step(timeouts: usize, etime: bool, now_sec: u64, now_nsec: u32, ns: u32) -> (r: WaitStep)
    requires
        now_nsec + ns <= u32::MAX,
    ensures
        !etime ==> r == (WaitStep::PushMarker { sec: now_sec, nsec: (now_nsec + ns) as u32 }),
        etime && timeouts > 0 ==> r == WaitStep::Drain,
        etime && timeouts == 0 ==> r == WaitStep::Done,
{
    if !etime {
        WaitStep::PushMarker { sec: now_sec, nsec: now_nsec + ns }
    } else if timeouts > 0 {
        WaitStep::Drain
    } else {
        WaitStep::Done
    }
}

/// What the submit-and-wait recovery does with a kernel error: retry the
/// call as it was, reap completions first and then retry, or give the
/// error up to the caller.
#[derive(Clone, Copy, Debug, PartialEq, Eq, Structural)]
pub enum SubmitRecovery {
    Retry,
    ReapThenRetry,
    Fail,
}

/// The recovery policy for a failed kernel submit-and-wait, by errno:
/// an interrupted call is retried as it was; a busy or would-block ring
/// is reaped before the retry; any other error propagates.
pub fn submit_recovery(errno: i32) -> (r: SubmitRecovery)
    ensures
        errno == EINTR <==> r == SubmitRecovery::Retry,
        (errno == EBUSY || errno == EAGAIN) <==> r == SubmitRecovery::ReapThenRetry,
        (errno != EINTR && errno != EBUSY && errno != EAGAIN) <==> r == SubmitRecovery::Fail,
{
    if errno == EINTR {
        SubmitRecovery::Retry
    } else if errno == EBUSY || errno == EAGAIN {
        SubmitRecovery::ReapThenRetry
    } else {
        SubmitRecovery::Fail
    }
}

/// The per-thread reactor state around one kernel ring.
pub struct Reactor {
    /// Entry count of the kernel ring.
    pub ring_size: usize,
    /// Outbox: entries pushed but not yet passed to the kernel.
    pub staged: Vec<Sqe>,
    /// Request table; a request's handle is its slot index plus one.
    pub reqs: Vec<Option<Request>>,
    /// Vacant slots of the request table.
    pub free_reqs: Vec<usize>,
    /// Submitted requests whose completion has not yet been dispatched.
    pub req_queued: usize,
}

impl Reactor {
    /// `rid` is a live handle: its request awaits completion dispatch.
    pub open spec fn in_flight(&self, rid: u64) -> bool {
        &&& 1 <= rid <= self.reqs@.len()
        &&& slot_in_flight(self.reqs@[rid - 1])
    }

    /// `rid`'s completion has been dispatched and its result awaits
    /// collection by `take_result`.
    pub open spec fn completed(&self, rid: u64) -> bool {
        &&& 1 <= rid <= self.reqs@.len()
        &&& self.reqs@[rid - 1] is Some
        &&& self.reqs@[rid - 1]->0.return_val is Some
    }

    /// The request behind a live or completed handle.
    pub open spec fn request_at(&self, rid: u64) -> Request {
        self.reqs@[rid - 1]->0
    }

    /// Whether a fresh submission would be refused: the ring's worth of
    /// requests is already un-reaped, or the outbox holds a ring's worth
    /// of entries.
    pub open spec fn push_would_fail(&self) -> bool {
        self.req_queued == self.ring_size || self.staged@.len() == self.ring_size
    }

    pub open spec fn wf(&self) -> bool {
        &&& self.staged@.len() <= self.ring_size
        &&& self.req_queued <= self.ring_size
        &&& self.req_queued == count_matching(self.reqs@, |o: Option<Request>| slot_in_flight(o))
        &&& self.free_reqs@.no_duplicates()
        &&& forall|k: int|
            0 <= k < self.free_reqs@.len() ==> (#[trigger] self.free_reqs@[k]) < self.reqs@.len()
                && self.reqs@[self.free_reqs@[k] as int] is None
        &&& forall|j: int|
            0 <= j < self.reqs@.len() ==> ((#[trigger] self.reqs@[j]) is None
                ==> self.free_reqs@.contains(j as usize))
    }

    /// A reactor for a ring of `entries` entries, with nothing staged and
    /// nothing outstanding. The embedding program builds the kernel ring
    /// of the same entry count beside it.
    pub fn new(entries: usize) -> (r: Self)
        ensures
            r.wf(),
            r.ring_size == entries,
            r.req_queued == 0,
            r.staged@.len() == 0,
            r.reqs@.len() == 0,
    {
        let r = Self {
            ring_size: entries,
            staged: Vec::new(),
            reqs: Vec::new(),
            free_reqs: Vec::new(),
            req_queued: 0,
        };
        proof {
            lemma_count_matching_zero(r.reqs@, |o: Option<Request>| slot_in_flight(o));
        }
        r
    }

    /// Whether completions remain to be reaped before the worker may
    /// block on a fresh timeout.
    pub fn requires_reaping(&self) -> (r: bool)
        ensures
            r == (self.req_queued > 0),
    {
        self.req_queued > 0
    }

    /// A live request is counted: while any operation's request awaits
    /// its completion, the un-reaped counter shows at least one pending
    /// entry.
    pub proof fn lemma_in_flight_counts(&self, rid: u64)
        requires
            self.wf(),
            self.in_flight(rid),
        ensures
            self.req_queued >= 1,
    {
        lemma_count_matching_pos(
            self.reqs@,
            |o: Option<Request>| slot_in_flight(o),
            rid - 1,
        );
    }

    /// Register `req` and stage its submission entry, stamped with the
    /// new handle as `user_data`. Fails exactly when the ring is full —
    /// a ring's worth of requests is un-reaped or the outbox is full —
    /// and then changes nothing: the counter is not advanced on failure.
    pub fn submit(&mut self, req: Request) -> (r: Result<u64, RequestError>)
        requires
            old(self).wf(),
        ensures
            final(self).wf(),
            final(self).ring_size == old(self).ring_size,
            r is Err <==> old(self).push_would_fail(),
            r is Err ==> *final(self) == *old(self) && r == Result::<u64, RequestError>::Err(
                RequestError::Push,
            ),
            r matches Ok(rid) ==> {
                &&& rid >= 1
                &&& !old(self).in_flight(rid) && !old(self).completed(rid)
                &&& final(self).in_flight(rid)
                &&& final(self).request_at(rid) == (Request {
                    sentry: req.sentry,
                    return_val: None,
                    waker: req.waker,
                })
                &&& final(self).staged@ == old(self).staged@.push(
                    Sqe { op: req.sentry, user_data: rid },
                )
                &&& final(self).req_queued == old(self).req_queued + 1
                &&& forall|r2: u64|
                    r2 != rid ==> (final(self).in_flight(r2) == old(self).in_flight(r2)
                        && final(self).completed(r2) == old(self).completed(r2))
                &&& forall|r2: u64|
                    r2 != rid && old(self).completed(r2) ==> final(self).request_at(r2) == old(self).request_at(r2)
                &&& forall|r2: u64|
                    r2 != rid && old(self).in_flight(r2) ==> final(self).request_at(r2) == old(self).request_at(r2)
            },
    {
        if self.req_queued == self.ring_size || self.staged.len() == self.ring_size {
            return Err(RequestError::Push);
        }
        let ghost pre = *self;
        let slot: usize = match self.free_reqs.pop() {
            Some(s) => s,
            None => {
                let s = self.reqs.len();
                self.reqs.push(None);
                s
            },
        };
        proof {
            assert(self.reqs@[slot as int] is None);
            if pre.free_reqs@.len() > 0 {
                assert(slot == pre.free_reqs@.last());
            } else {
                assert(self.reqs@ =~= pre.reqs@.push(None));
                lemma_count_matching_update(
                    self.reqs@,
                    |o: Option<Request>| slot_in_flight(o),
                    slot as int,
                    None,
                );
                assert(self.reqs@.update(slot as int, None) =~= self.reqs@);
                assert(self.reqs@.drop_last() =~= pre.reqs@);
            }
            assert(self.reqs.len() == self.reqs@.len());
            assert(slot < self.reqs@.len());
        }
        let rid: u64 = (slot as u64) + 1;
        let stored = Request { sentry: req.sentry, return_val: None, waker: req.waker };
        let ghost mid = *self;
        self.reqs[slot] = Some(stored);
        self.staged.push(Sqe { op: req.sentry, user_data: rid });
        self.req_queued = self.req_queued + 1;
        proof {
            lemma_count_matching_update(
                mid.reqs@,
                |o: Option<Request>| slot_in_flight(o),
                slot as int,
                Some(stored),
            );
            assert(count_matching(mid.reqs@, |o: Option<Request>| slot_in_flight(o))
                == pre.req_queued);
            assert forall|k: int|
                0 <= k < self.free_reqs@.len() implies (#[trigger] self.free_reqs@[k])
                < self.reqs@.len() && self.reqs@[self.free_reqs@[k] as int] is None by {
                if pre.free_reqs@.len() > 0 {
                    assert(self.free_reqs@[k] == pre.free_reqs@[k]);
                    assert(self.free_reqs@[k] != slot);
                }
            }
            assert forall|j: int|
                0 <= j < self.reqs@.len() && (#[trigger] self.reqs@[j]) is None implies
                self.free_reqs@.contains(j as usize) by {
                assert(j != slot);
                if pre.free_reqs@.len() > 0 {
                    assert(pre.reqs@[j] is None);
                    assert(pre.free_reqs@.contains(j as usize));
                    let k = choose|k: int|
                        0 <= k < pre.free_reqs@.len() && pre.free_reqs@[k] == j as usize;
                    assert(k != pre.free_reqs@.len() - 1);
                    assert(self.free_reqs@[k] == j as usize);
                } else {
                    assert(j < mid.reqs@.len());
                    if j < pre.reqs@.len() {
                        assert(pre.reqs@[j] is None);
                        assert(pre.free_reqs@.contains(j as usize));
                        assert(false);
                    } else {
                        assert(j == mid.reqs@.len() - 1);
                        assert(false);
                    }
                }
            }
        }
        Ok(rid)
    }

    /// Collect the result of a completed request, releasing its table
    /// slot. Live, unknown or already-released handles return `None` and
    /// change nothing.
    pub fn take_result(&mut self, rid: u64) -> (r: Option<i32>)
        requires
            old(self).wf(),
        ensures
            final(self).wf(),
            final(self).ring_size == old(self).ring_size,
            final(self).staged@ == old(self).staged@,
            final(self).req_queued == old(self).req_queued,
            !old(self).completed(rid) ==> r is None && *final(self) == *old(self),
            old(self).completed(rid) ==> {
                &&& r == old(self).request_at(rid).return_val
                &&& !final(self).completed(rid) && !final(self).in_flight(rid)
                &&& forall|r2: u64|
                    r2 != rid ==> (final(self).in_flight(r2) == old(self).in_flight(r2)
                        && final(self).completed(r2) == old(self).completed(r2))
                &&& forall|r2: u64|
                    r2 != rid && (old(self).in_flight(r2) || old(self).completed(r2))
                        ==> final(self).request_at(r2) == old(self).request_at(r2)
            },
    {
        if rid == 0 {
            return None;
        }
        let slot_u64 = rid - 1;
        if slot_u64 >= self.reqs.len() as u64 {
            return None;
        }
        let slot = slot_u64 as usize;
        let ghost pre = *self;
        match self.reqs[slot] {
            None => None,
            Some(req) => {
                match req.return_val {
                    None => None,
                    Some(v) => {
                        self.reqs[slot] = None;
                        self.free_reqs.push(slot);
                        proof {
                            lemma_count_matching_update(
                                pre.reqs@,
                                |o: Option<Request>| slot_in_flight(o),
                                slot as int,
                                None,
                            );
                            assert forall|i1: int, j1: int|
                                0 <= i1 < j1 < self.free_reqs@.len() implies self.free_reqs@[i1]
                                != self.free_reqs@[j1] by {
                                if j1 == self.free_reqs@.len() - 1 {
                                    assert(pre.reqs@[self.free_reqs@[i1] as int] is None);
                                }
                            }
                            assert forall|j: int|
                                0 <= j < self.reqs@.len() && (#[trigger] self.reqs@[j]) is None
                                implies self.free_reqs@.contains(j as usize) by {
                                if j == slot {
                                    assert(self.free_reqs@.last() == slot);
                                } else {
                                    assert(pre.reqs@[j] is None);
                                    assert(pre.free_reqs@.contains(j as usize));
                                    let k = choose|k: int|
                                        0 <= k < pre.free_reqs@.len() && pre.free_reqs@[k]
                                            == j as usize;
                                    assert(self.free_reqs@[k] == j as usize);
                                }
                            }
                        }
                        Some(v)
                    },
                }
            },
        }
    }

    /// Stage a timeout marker with the given absolute monotonic deadline;
    /// its `user_data` is zero, the value reserved for the reactor's own
    /// entries. Fails exactly when the outbox is full, and then changes
    /// nothing.
    pub fn stage_timeout(&mut self, sec: u64, nsec: u32) -> (r: Result<(), RequestError>)
        requires
            old(self).wf(),
        ensures
            final(self).wf(),
            final(self).ring_size == old(self).ring_size,
            r is Err <==> old(self).staged@.len() == old(self).ring_size,
            r is Err ==> *final(self) == *old(self),
            r is Ok ==> *final(self) == (Reactor {
                staged: final(self).staged,
                ..*old(self)
            }) && final(self).staged@ == old(self).staged@.push(
                Sqe { op: Op::Timeout { sec, nsec }, user_data: 0 },
            ),
    {
        if self.staged.len() == self.ring_size {
            return Err(RequestError::Push);
        }
        self.staged.push(Sqe { op: Op::Timeout { sec, nsec }, user_data: 0 });
        Ok(())
    }

    /// Dispatch one completion entry.
    ///
    /// A `user_data` of zero is a timeout marker: the timeout count drops
    /// by one, and a `-ETIME` result raises the etime flag. Any other
    /// `user_data` names a request: its result is written into the return
    /// slot, the un-reaped count drops by one, and the stored waker is
    /// fired — re-enqueueing the suspended task, and doing nothing when
    /// the task is already enqueued or gone. An entry that names no live
    /// request changes nothing.
    ///
    /// Returns the new timeout count, the new etime flag, and whether the
    /// entry matched a live request.
    pub fn complete_one(&mut self, exec: &mut Executor, headers: &mut Vec<TaskHeader>, cqe: Cqe, timeouts: usize, etime: bool) -> (r: (usize, bool, bool))
        requires
            old(self).wf(),
            old(exec).queue_ok(old(headers)@),
            cqe.user_data == 0 ==> timeouts >= 1,
        ensures
            final(self).wf(),
            final(exec).queue_ok(final(headers)@),
            final(self).ring_size == old(self).ring_size,
            final(self).staged@ == old(self).staged@,
            final(exec).spawned == old(exec).spawned,
            final(headers)@.len() == old(headers)@.len(),
            count_matching(final(headers)@, |h: TaskHeader| crate::task::is_live(h))
                == count_matching(old(headers)@, |h: TaskHeader| crate::task::is_live(h)),
            cqe.user_data == 0 ==> {
                &&& r.0 == timeouts - 1
                &&& r.1 == (etime || cqe.result == -ETIME)
                &&& !r.2
                &&& *final(self) == *old(self)
                &&& *final(exec) == *old(exec)
                &&& final(headers)@ == old(headers)@
            },
            cqe.user_data != 0 && !old(self).in_flight(cqe.user_data) ==> {
                &&& r == ((timeouts, etime, false))
                &&& *final(self) == *old(self)
                &&& *final(exec) == *old(exec)
                &&& final(headers)@ == old(headers)@
            },
            cqe.user_data != 0 && old(self).in_flight(cqe.user_data) ==> {
                &&& r == ((timeouts, etime, true))
                &&& final(self).completed(cqe.user_data)
                &&& final(self).request_at(cqe.user_data) == (Request {
                    return_val: Some(cqe.result),
                    ..old(self).request_at(cqe.user_data)
                })
                &&& final(self).req_queued == old(self).req_queued - 1
                &&& forall|r2: u64|
                    r2 != cqe.user_data ==> (final(self).in_flight(r2) == old(self).in_flight(r2)
                        && final(self).completed(r2) == old(self).completed(r2))
                &&& forall|r2: u64|
                    r2 != cqe.user_data && (old(self).in_flight(r2) || old(self).completed(r2))
                        ==> final(self).request_at(r2) == old(self).request_at(r2)
                &&& ({
                    let w = old(self).request_at(cqe.user_data).waker;
                    if w is Some && w->0.idx < old(headers)@.len() && old(headers)@[w->0.idx as int].state == TaskState::Waiting && old(headers)@[w->0.idx as int].executor {
                        &&& final(exec).task_queue.items() == seq![w->0.idx].add(
                            old(exec).task_queue.items(),
                        )
                        &&& final(headers)@[w->0.idx as int].state == TaskState::Queued
                        &&& forall|j: int|
                            0 <= j < old(headers)@.len() && j != w->0.idx
                                ==> final(headers)@[j] == old(headers)@[j]
                    } else {
                        &&& *final(exec) == *old(exec)
                        &&& final(headers)@ == old(headers)@
                    }
                })
            },
    {
        if cqe.user_data == 0 {
            let t2 = timeouts - 1;
            let e2 = etime || cqe.result == -ETIME;
            return (t2, e2, false);
        }
        let rid = cqe.user_data;
        let slot_u64 = rid - 1;
        if slot_u64 >= self.reqs.len() as u64 {
            return (timeouts, etime, false);
        }
        let slot = slot_u64 as usize;
        let ghost pre = *self;
        let cur = self.reqs[slot];
        match cur {
            None => (timeouts, etime, false),
            Some(req) => {
                if req.return_val.is_some() {
                    return (timeouts, etime, false);
                }
                proof {
                    lemma_count_matching_pos(
                        pre.reqs@,
                        |o: Option<Request>| slot_in_flight(o),
                        slot as int,
                    );
                }
                let stored = Request { return_val: Some(cqe.result), ..req };
                self.reqs[slot] = Some(stored);
                self.req_queued = self.req_queued - 1;
                proof {
                    lemma_count_matching_update(
                        pre.reqs@,
                        |o: Option<Request>| slot_in_flight(o),
                        slot as int,
                        Some(stored),
                    );
                    assert forall|j: int|
                        0 <= j < self.reqs@.len() && (#[trigger] self.reqs@[j]) is None implies
                        self.free_reqs@.contains(j as usize) by {
                        assert(pre.reqs@[j] is None);
                    }
                }
                match req.waker {
                    None => (timeouts, etime, true),
                    Some(w) => {
                        if w.as_ptr() < headers.len() {
                            wake_task(exec, headers, w);
                        }
                        (timeouts, etime, true)
                    },
                }
            },
        }
    }

    /// Dispatch a batch of completion entries, in order, as the kernel
    /// reaped them.
    ///
    /// The batch must respect the kernel convention: every `user_data` is
    /// either zero (a timeout marker of this reactor) or the handle of a
    /// live request, each at most once. Returns how many entries matched
    /// requests, the timeout count after the markers, and the etime flag.
    /// All the suspended tasks whose requests completed are enqueued; the
    /// live counter is untouched.
    #[verifier::rlimit(100)]
    #[verifier::spinoff_prover]
    pub fn flush_completions(&mut self, exec: &mut Executor, headers: &mut Vec<TaskHeader>, cqes: &Vec<Cqe>, timeouts: usize, etime: bool) -> (r: (usize, usize, bool))
        requires
            old(self).wf(),
            old(exec).queue_ok(old(headers)@),
            timeouts >= count_matching(cqes@, |c: Cqe| c.user_data == 0),
            forall|k: int|
                0 <= k < cqes@.len() ==> ((#[trigger] cqes@[k]).user_data == 0 || old(self).in_flight(cqes@[k].user_data)),
            forall|k1: int, k2: int|
                0 <= k1 < k2 < cqes@.len() && (#[trigger] cqes@[k1]).user_data != 0
                    ==> cqes@[k1].user_data != (#[trigger] cqes@[k2]).user_data,
        ensures
            final(self).wf(),
            final(exec).queue_ok(final(headers)@),
            final(self).ring_size == old(self).ring_size,
            final(self).staged@ == old(self).staged@,
            final(exec).spawned == old(exec).spawned,
            final(headers)@.len() == old(headers)@.len(),
            count_matching(final(headers)@, |h: TaskHeader| crate::task::is_live(h))
                == count_matching(old(headers)@, |h: TaskHeader| crate::task::is_live(h)),
            r.0 == cqes@.len() - count_matching(cqes@, |c: Cqe| c.user_data == 0),
            r.1 == timeouts - count_matching(cqes@, |c: Cqe| c.user_data == 0),
            r.2 == (etime || batch_etime(cqes@)),
            final(self).req_queued == old(self).req_queued - r.0,
            forall|k: int|
                0 <= k < cqes@.len() && (#[trigger] cqes@[k]).user_data != 0 ==> final(self).completed(cqes@[k].user_data) && final(self).request_at(cqes@[k].user_data)
                    == (Request {
                    return_val: Some(cqes@[k].result),
                    ..old(self).request_at(cqes@[k].user_data)
                }),
            forall|r2: u64|
                r2 != 0 && !batch_contains(cqes@, r2) ==> (final(self).in_flight(r2) == old(self).in_flight(r2) && final(self).completed(r2) == old(self).completed(r2) && ((old(self).in_flight(r2) || old(self).completed(r2)) ==> final(self).request_at(r2) == old(self).request_at(r2))),
            forall|i: int|
                0 <= i < old(headers)@.len() && !(batch_wakes(*old(self), cqes@, i) && old(headers)@[i].state == TaskState::Waiting && old(headers)@[i].executor) ==> final(headers)@[i] == old(headers)@[i],
            forall|i: int|
                0 <= i < old(headers)@.len() && batch_wakes(*old(self), cqes@, i) && old(headers)@[i].state == TaskState::Waiting && old(headers)@[i].executor ==> final(headers)@[i].state == TaskState::Queued,
            forall|i: int|
                0 <= i < old(headers)@.len() ==> (final(exec).task_queue.items().contains(
                    i as usize,
                ) <==> (old(exec).task_queue.items().contains(i as usize) || (batch_wakes(
                    *old(self),
                    cqes@,
                    i,
                ) && (#[trigger] old(headers)@[i]).state == TaskState::Waiting && old(
                    headers,
                )@[i].executor))),
    {
        let ghost pre = *self;
        let ghost pre_exec = *exec;
        let ghost pre_headers = old(headers)@;
        let mut collected: usize = 0;
        let mut cur_timeouts: usize = timeouts;
        let mut cur_etime: bool = etime;
        let mut k: usize = 0;
        proof {
            assert(cqes@.subrange(0, 0) =~= Seq::<Cqe>::empty());
        }
        while k < cqes.len()
            invariant
                k <= cqes@.len(),
                self.wf(),
                exec.queue_ok(headers@),
                self.ring_size == pre.ring_size,
                self.staged@ == pre.staged@,
                exec.spawned == pre_exec.spawned,
                headers@.len() == pre_headers.len(),
                count_matching(headers@, |h: TaskHeader| crate::task::is_live(h)) == count_matching(
                    pre_headers,
                    |h: TaskHeader| crate::task::is_live(h),
                ),
                timeouts >= count_matching(cqes@, |c: Cqe| c.user_data == 0),
                forall|k2: int|
                    0 <= k2 < cqes@.len() ==> ((#[trigger] cqes@[k2]).user_data == 0
                        || pre.in_flight(cqes@[k2].user_data)),
                forall|k1: int, k2: int|
                    0 <= k1 < k2 < cqes@.len() && (#[trigger] cqes@[k1]).user_data != 0
                        ==> cqes@[k1].user_data != (#[trigger] cqes@[k2]).user_data,
                collected == k - count_matching(
                    cqes@.subrange(0, k as int),
                    |c: Cqe| c.user_data == 0,
                ),
                cur_timeouts == timeouts - count_matching(
                    cqes@.subrange(0, k as int),
                    |c: Cqe| c.user_data == 0,
                ),
                cur_etime == (etime || batch_etime(cqes@.subrange(0, k as int))),
                self.req_queued == pre.req_queued - collected,
                forall|k2: int|
                    0 <= k2 < k && (#[trigger] cqes@[k2]).user_data != 0 ==> self.completed(
                        cqes@[k2].user_data,
                    ) && self.request_at(cqes@[k2].user_data) == (Request {
                        return_val: Some(cqes@[k2].result),
                        ..pre.request_at(cqes@[k2].user_data)
                    }),
                forall|r2: u64|
                    r2 != 0 && !batch_contains(cqes@.subrange(0, k as int), r2) ==> (
                    self.in_flight(r2) == pre.in_flight(r2) && self.completed(r2) == pre.completed(
                        r2,
                    ) && ((pre.in_flight(r2) || pre.completed(r2)) ==> self.request_at(r2)
                        == pre.request_at(r2))),
                forall|i: int|
                    0 <= i < pre_headers.len() && !(batch_wakes(pre, cqes@.subrange(0, k as int), i)
                        && pre_headers[i].state == TaskState::Waiting && pre_headers[i].executor)
                        ==> headers@[i] == pre_headers[i],
                forall|i: int|
                    0 <= i < pre_headers.len() && batch_wakes(pre, cqes@.subrange(0, k as int), i)
                        && pre_headers[i].state == TaskState::Waiting && pre_headers[i].executor
                        ==> headers@[i].state == TaskState::Queued,
                forall|i: int|
                    0 <= i < pre_headers.len() ==> (exec.task_queue.items().contains(i as usize)
                        <==> (pre_exec.task_queue.items().contains(i as usize) || (batch_wakes(
                        pre,
                        cqes@.subrange(0, k as int),
                        i,
                    ) && (#[trigger] pre_headers[i]).state == TaskState::Waiting
                        && pre_headers[i].executor))),
            decreases cqes@.len() - k,
        {
            let cqe = cqes[k];
            let ghost prefix = cqes@.subrange(0, k as int);
            let ghost prefix1 = cqes@.subrange(0, k + 1int);
            proof {
                assert(prefix1.drop_last() =~= prefix);
                assert(prefix1.last() == cqes@[k as int]);
                if cqe.user_data == 0 {
                    lemma_count_matching_concat(
                        prefix1,
                        cqes@.subrange(k + 1int, cqes@.len() as int),
                        |c: Cqe| c.user_data == 0,
                    );
                    assert(cqes@ =~= prefix1.add(cqes@.subrange(k + 1int, cqes@.len() as int)));
                    assert(count_matching(prefix1, |c: Cqe| c.user_data == 0) <= count_matching(
                        cqes@,
                        |c: Cqe| c.user_data == 0,
                    ));
                    assert(cur_timeouts >= 1);
                } else {
                    assert(pre.in_flight(cqe.user_data));
                    assert(!batch_contains(prefix, cqe.user_data));
                    assert(self.in_flight(cqe.user_data));
                    assert(self.request_at(cqe.user_data) == pre.request_at(cqe.user_data));
                }
            }
            let ghost snap = *self;
            let ghost snap_exec = *exec;
            let ghost snap_headers = headers@;
            let rr = self.complete_one(exec, headers, cqe, cur_timeouts, cur_etime);
            cur_timeouts = rr.0;
            cur_etime = rr.1;
            if rr.2 {
                collected = collected + 1;
            }
            proof {
                assert forall|i: int|
                    0 <= i < pre_headers.len() implies (#[trigger] batch_wakes(pre, prefix1, i)
                    <==> (batch_wakes(pre, prefix, i) || (cqe.user_data != 0 && pre.in_flight(
                    cqe.user_data,
                ) && pre.request_at(cqe.user_data).waker == Some(TaskRef { idx: i as usize })))) by {
                    if batch_wakes(pre, prefix1, i) {
                        let k2 = choose|k2: int|
                            0 <= k2 < prefix1.len() && (#[trigger] prefix1[k2]).user_data != 0
                                && pre.in_flight(prefix1[k2].user_data) && pre.request_at(
                                prefix1[k2].user_data,
                            ).waker == Some(TaskRef { idx: i as usize });
                        if k2 < k {
                            assert(prefix[k2] == prefix1[k2]);
                            assert(batch_wakes(pre, prefix, i));
                        }
                    }
                    if batch_wakes(pre, prefix, i) {
                        let k2 = choose|k2: int|
                            0 <= k2 < prefix.len() && (#[trigger] prefix[k2]).user_data != 0
                                && pre.in_flight(prefix[k2].user_data) && pre.request_at(
                                prefix[k2].user_data,
                            ).waker == Some(TaskRef { idx: i as usize });
                        assert(prefix1[k2] == prefix[k2]);
                        assert(batch_wakes(pre, prefix1, i));
                    }
                    if cqe.user_data != 0 && pre.in_flight(cqe.user_data) && pre.request_at(
                        cqe.user_data,
                    ).waker == Some(TaskRef { idx: i as usize }) {
                        assert(prefix1[k as int] == cqe);
                        assert(batch_wakes(pre, prefix1, i));
                    }
                }
                assert forall|r2: u64| #[trigger] batch_contains(prefix1, r2) implies (
                batch_contains(prefix, r2) || r2 == cqe.user_data) by {
                    let k2 = choose|k2: int|
                        0 <= k2 < prefix1.len() && (#[trigger] prefix1[k2]).user_data == r2;
                    if k2 < k {
                        assert(prefix[k2] == prefix1[k2]);
                    }
                }
                assert forall|r2: u64|
                    batch_contains(prefix, r2) implies #[trigger] batch_contains(prefix1, r2) by {
                    let k2 = choose|k2: int|
                        0 <= k2 < prefix.len() && (#[trigger] prefix[k2]).user_data == r2;
                    assert(prefix1[k2] == prefix[k2]);
                }
                if batch_etime(prefix1) {
                } else {
                }
                assert(batch_etime(prefix1) <==> (batch_etime(prefix) || (cqe.user_data == 0
                    && cqe.result == -ETIME))) by {
                    if batch_etime(prefix1) {
                        let k2 = choose|k2: int|
                            0 <= k2 < prefix1.len() && (#[trigger] prefix1[k2]).user_data == 0
                                && prefix1[k2].result == -ETIME;
                        if k2 < k {
                            assert(prefix[k2] == prefix1[k2]);
                            assert(batch_etime(prefix));
                        } else {
                            assert(prefix1[k2] == cqe);
                        }
                    }
                    if batch_etime(prefix) {
                        let k2 = choose|k2: int|
                            0 <= k2 < prefix.len() && (#[trigger] prefix[k2]).user_data == 0
                                && prefix[k2].result == -ETIME;
                        assert(prefix1[k2] == prefix[k2]);
                        assert(batch_etime(prefix1));
                    }
                    if cqe.user_data == 0 && cqe.result == -ETIME {
                        assert(prefix1[k as int] == cqe);
                        assert(batch_etime(prefix1));
                    }
                }
                if cqe.user_data != 0 {
                    let ghost w = snap.request_at(cqe.user_data).waker;
                    assert(w == pre.request_at(cqe.user_data).waker);
                    let ghost woke = w is Some && w->0.idx < snap_headers.len()
                        && snap_headers[w->0.idx as int].state == TaskState::Waiting
                        && snap_headers[w->0.idx as int].executor;
                    assert forall|i: int|
                        0 <= i < pre_headers.len() implies (exec.task_queue.items().contains(
                        i as usize,
                    ) <==> (pre_exec.task_queue.items().contains(i as usize) || (batch_wakes(
                        pre,
                        prefix1,
                        i,
                    ) && (#[trigger] pre_headers[i]).state == TaskState::Waiting
                        && pre_headers[i].executor))) by {
                        assert(headers.len() == headers@.len());
                        let iu = i as usize;
                        let ghost bw0 = batch_wakes(pre, prefix, i);
                        let ghost bw1 = batch_wakes(pre, prefix1, i);
                        if woke {
                            lemma_cons_contains(w->0.idx, snap_exec.task_queue.items(), iu);
                        }
                        // forward: the queue gained at most the woken slot
                        if exec.task_queue.items().contains(iu) {
                            if woke && i == w->0.idx {
                                if batch_wakes(pre, prefix, i) && pre_headers[i].state
                                    == TaskState::Waiting && pre_headers[i].executor {
                                    assert(snap_headers[i].state == TaskState::Queued);
                                    assert(false);
                                }
                                assert(snap_headers[i] == pre_headers[i]);
                                assert(w == Some(TaskRef { idx: iu }));
                                assert(prefix1[k as int] == cqe);
                                assert(batch_wakes(pre, prefix1, i));
                            } else {
                                assert(snap_exec.task_queue.items().contains(iu));
                                if !pre_exec.task_queue.items().contains(iu) {
                                    assert(batch_wakes(pre, prefix, i) && pre_headers[i].state
                                        == TaskState::Waiting && pre_headers[i].executor);
                                    assert(batch_wakes(pre, prefix1, i));
                                }
                            }
                        }
                        // backward, old queue members stay
                        if pre_exec.task_queue.items().contains(iu) {
                            assert(snap_exec.task_queue.items().contains(iu));
                            assert(exec.task_queue.items().contains(iu));
                        }
                        // backward, woken slots are enqueued
                        if batch_wakes(pre, prefix1, i) && pre_headers[i].state
                            == TaskState::Waiting && pre_headers[i].executor {
                            if batch_wakes(pre, prefix, i) {
                                assert(snap_exec.task_queue.items().contains(iu));
                                assert(exec.task_queue.items().contains(iu));
                            } else {
                                assert(w == Some(TaskRef { idx: iu }));
                                assert(snap_headers[i] == pre_headers[i]);
                                assert(woke && i == w->0.idx);
                                assert(exec.task_queue.items().contains(iu));
                            }
                        }
                    }
                }
            }
            k = k + 1;
            proof {
                assert(cqes@.subrange(0, k as int) =~= prefix1);
            }
        }
        proof {
            assert(cqes@.subrange(0, cqes@.len() as int) =~= cqes@);
        }
        (collected, cur_timeouts, cur_etime)
    }

    /// Hand the staged entries over for the kernel submit, leaving the
    /// outbox empty. The embedding program passes them to the ring
    /// verbatim, in order.
    pub fn take_staged(&mut self) -> (r: Vec<Sqe>)
        requires
            old(self).wf(),
        ensures
            final(self).wf(),
            r@ == old(self).staged@,
            final(self).staged@.len() == 0,
            *final(self) == (Reactor { staged: final(self).staged, ..*old(self) }),
    {
        let mut out: Vec<Sqe> = Vec::new();
        core::mem::swap(&mut out, &mut self.staged);
        out
    }
}

} // verus!
