//! Operation futures: value types, one per kernel opcode, each driving
//! one reactor request through `fresh → submitted → completed`.
//!
//! Every operation polls the same way ([`OpCore::poll_op`]): once the
//! return slot is populated the result is translated — negative values
//! are negated OS error codes, non-negative values are success. Before
//! that, the first poll stores the caller's waker in the request and
//! submits it; a refused submission asks for an immediate self-wake so
//! the next round retries; afterwards the future stays pending until the
//! completion arrives. Transitions are monotonic: an operation never
//! returns to an earlier state.

use crate::executor::{TaskFuture, TaskPoll};
use crate::reactor::{Reactor, Request};
use crate::sqe::{Op, Sqe, NO_OFFSET};
use crate::task::TaskRef;
use vstd::prelude::*;

verus! {

/// What one poll of an operation reported: the kernel result, or still
/// pending — with or without a request for an immediate self-wake.
#[derive(Clone, Copy, Debug, PartialEq, Eq, Structural)]
pub enum OpPoll {
    Ready(i32),
    Pending,
    PendingWake,
}

/// Where an operation stands. Monotonic: `Fresh` until a submission is
/// accepted, `Submitted` until the completion is collected, then `Done`
/// with the kernel result.
#[derive(Clone, Copy, Debug, PartialEq, Eq, Structural)]
pub enum OpState {
    Fresh,
    Submitted { rid: u64 },
    Done { val: i32 },
}

/// The request descriptor and state shared by every operation future.
#[derive(Clone, Copy, Debug)]
pub struct OpCore {
    pub req: Request,
    pub state: OpState,
}

impl OpCore {
    pub fn new(sentry: Op) -> (r: Self)
        ensures
            r.state == OpState::Fresh,
            r.req.sentry == sentry,
            r.req.return_val is None,
            r.req.waker is None,
    {
        Self { req: Request::new(sentry), state: OpState::Fresh }
    }

    /// One poll step of the operation against the reactor.
    ///
    /// While the operation is submitted and not yet completed, the
    /// reactor holds at least its one un-reaped request; completion
    /// collects the result and releases the request.
    pub fn poll_op(&mut self, task: TaskRef, reactor: &mut Reactor) -> (r: OpPoll)
        requires
            old(reactor).wf(),
        ensures
            final(reactor).wf(),
            final(reactor).ring_size == old(reactor).ring_size,
            final(self).req.sentry == old(self).req.sentry,
            old(self).state is Fresh ==> ({
                if old(reactor).push_would_fail() {
                    &&& r == OpPoll::PendingWake
                    &&& final(self).state is Fresh
                    &&& *final(reactor) == *old(reactor)
                } else {
                    &&& r == OpPoll::Pending
                    &&& final(self).state is Submitted
                    &&& final(reactor).in_flight(final(self).state->rid)
                    &&& final(reactor).request_at(final(self).state->rid) == (Request {
                        sentry: old(self).req.sentry,
                        return_val: None,
                        waker: Some(task),
                    })
                    &&& final(reactor).staged@ == old(reactor).staged@.push(
                        Sqe {
                            op: old(self).req.sentry,
                            user_data: final(self).state->rid,
                        },
                    )
                    &&& final(reactor).req_queued == old(reactor).req_queued + 1
                }
            }),
            old(self).state matches OpState::Submitted { rid } ==> ({
                if old(reactor).completed(rid) {
                    &&& r == OpPoll::Ready(old(reactor).request_at(rid).return_val->0)
                    &&& final(self).state == (OpState::Done {
                        val: old(reactor).request_at(rid).return_val->0,
                    })
                    &&& !final(reactor).in_flight(rid) && !final(reactor).completed(rid)
                    &&& final(reactor).req_queued == old(reactor).req_queued
                    &&& final(reactor).staged@ == old(reactor).staged@
                    &&& forall|r2: u64|
                        r2 != rid ==> (final(reactor).in_flight(r2) == old(reactor).in_flight(r2)
                            && final(reactor).completed(r2) == old(reactor).completed(r2))
                } else {
                    &&& r == OpPoll::Pending
                    &&& *final(self) == *old(self)
                    &&& *final(reactor) == *old(reactor)
                }
            }),
            old(self).state matches OpState::Done { val } ==> r == OpPoll::Ready(val)
                && *final(self) == *old(self) && *final(reactor) == *old(reactor),
    {
        match self.state {
            OpState::Done { val } => OpPoll::Ready(val),
            OpState::Fresh => {
                self.req.waker = Some(task);
                match reactor.submit(self.req) {
                    Ok(rid) => {
                        self.state = OpState::Submitted { rid };
                        OpPoll::Pending
                    },
                    Err(_) => OpPoll::PendingWake,
                }
            },
            OpState::Submitted { rid } => {
                match reactor.take_result(rid) {
                    Some(v) => {
                        self.state = OpState::Done { val: v };
                        OpPoll::Ready(v)
                    },
                    None => OpPoll::Pending,
                }
            },
        }
    }

    /// Fold an operation poll into a task poll, dropping the value. This
    /// is the poll every operation future's `TaskFuture` impl runs; it
    /// carries the full operation contract with the task-poll vocabulary.
    pub fn poll_task(&mut self, task: TaskRef, reactor: &mut Reactor) -> (r: TaskPoll)
        requires
            old(reactor).wf(),
        ensures
            final(reactor).wf(),
            final(reactor).ring_size == old(reactor).ring_size,
            final(self).req.sentry == old(self).req.sentry,
            old(self).state is Fresh ==> ({
                if old(reactor).push_would_fail() {
                    &&& r == TaskPoll::PendingWake
                    &&& final(self).state is Fresh
                    &&& *final(reactor) == *old(reactor)
                } else {
                    &&& r == TaskPoll::Pending
                    &&& final(self).state is Submitted
                    &&& final(reactor).in_flight(final(self).state->rid)
                    &&& final(reactor).request_at(final(self).state->rid) == (Request {
                        sentry: old(self).req.sentry,
                        return_val: None,
                        waker: Some(task),
                    })
                    &&& final(reactor).staged@ == old(reactor).staged@.push(
                        Sqe {
                            op: old(self).req.sentry,
                            user_data: final(self).state->rid,
                        },
                    )
                    &&& final(reactor).req_queued == old(reactor).req_queued + 1
                }
            }),
            old(self).state matches OpState::Submitted { rid } ==> ({
                if old(reactor).completed(rid) {
                    &&& r == TaskPoll::Ready
                    &&& final(self).state == (OpState::Done {
                        val: old(reactor).request_at(rid).return_val->0,
                    })
                    &&& !final(reactor).in_flight(rid) && !final(reactor).completed(rid)
                    &&& final(reactor).req_queued == old(reactor).req_queued
                    &&& final(reactor).staged@ == old(reactor).staged@
                } else {
                    &&& r == TaskPoll::Pending
                    &&& *final(self) == *old(self)
                    &&& *final(reactor) == *old(reactor)
                }
            }),
            old(self).state is Done ==> r == TaskPoll::Ready && *final(self) == *old(self)
                && *final(reactor) == *old(reactor),
    {
        match self.poll_op(task, reactor) {
            OpPoll::Ready(_) => TaskPoll::Ready,
            OpPoll::Pending => TaskPoll::Pending,
            OpPoll::PendingWake => TaskPoll::PendingWake,
        }
    }
}

/// Translate a completed operation's kernel result: a negative value is
/// the operating-system error whose code is its negation, a non-negative
/// value is the success value.
pub fn op_outcome(v: i32) -> (r: Result<i32, i32>)
    requires
        v > i32::MIN,
    ensures
        r is Err <==> v < 0,
        r matches Err(e) ==> e == -v,
        r matches Ok(n) ==> n == v,
{
    if v < 0 {
        Err(-v)
    } else {
        Ok(v)
    }
}

/// Read up to `len` bytes from `fd` at the file's current position into
/// the buffer the embedding program placed at `buf_addr`. Completes with
/// the byte count or a negated error code.
pub struct Read {
    pub op: OpCore,
}

impl Read {
    pub fn new(fd: i32, buf_addr: u64, buf_len: u32) -> (r: Self)
        ensures
            r.op.state == OpState::Fresh,
            r.op.req.sentry == (Op::Read {
                fd,
                addr: buf_addr,
                len: buf_len,
                offset: NO_OFFSET,
            }),
            r.op.req.return_val is None,
            r.op.req.waker is None,
    {
        Self {
            op: OpCore::new(Op::Read { fd, addr: buf_addr, len: buf_len, offset: NO_OFFSET }),
        }
    }
}

impl TaskFuture for Read {
    fn poll(&mut self, task: TaskRef, reactor: &mut Reactor) -> (r: TaskPoll) {
        self.op.poll_task(task, reactor)
    }
}

/// Open the path whose NUL-terminated bytes the future owns, resolved
/// against the working directory. Completes with the new descriptor or a
/// negated error code.
pub struct Open {
    pub op: OpCore,
    /// The owned NUL-terminated copy of the path, alive for the full
    /// submission lifetime; `path_addr` is where the embedding program
    /// keeps the identical bytes for the kernel.
    pub path: Vec<u8>,
}

impl Open {
    /// Rejects paths with embedded zero bytes; no terminated copy can
    /// carry them.
    pub fn new(pathname: &Vec<u8>, path_addr: u64) -> (r: Option<Self>)
        ensures
            r is None <==> pathname@.contains(0u8),
            r matches Some(m) ==> {
                &&& m.path@ == pathname@.push(0u8)
                &&& m.op.state == OpState::Fresh
                &&& m.op.req.sentry == (Op::OpenAt {
                    dirfd: crate::sqe::AT_FDCWD,
                    path_addr,
                    flags: 0,
                    mode: 0,
                })
                &&& m.op.req.waker is None
            },
    {
        match nul_terminate(pathname) {
            None => None,
            Some(path) => Some(
                Self {
                    op: OpCore::new(
                        Op::OpenAt { dirfd: crate::sqe::AT_FDCWD, path_addr, flags: 0, mode: 0 },
                    ),
                    path,
                },
            ),
        }
    }
}

impl TaskFuture for Open {
    fn poll(&mut self, task: TaskRef, reactor: &mut Reactor) -> (r: TaskPoll) {
        self.op.poll_task(task, reactor)
    }
}

/// Close the file descriptor. Completes with zero or a negated error
/// code.
pub struct Close {
    pub op: OpCore,
}

impl Close {
    pub fn new(fd: i32) -> (r: Self)
        ensures
            r.op.state == OpState::Fresh,
            r.op.req.sentry == (Op::Close { fd }),
            r.op.req.waker is None,
    {
        Self { op: OpCore::new(Op::Close { fd }) }
    }
}

impl TaskFuture for Close {
    fn poll(&mut self, task: TaskRef, reactor: &mut Reactor) -> (r: TaskPoll) {
        self.op.poll_task(task, reactor)
    }
}

/// A no-operation submission: completes with zero on the next reactor
/// turn. Awaiting it yields the task for one round trip.
pub struct YieldMeta {
    pub op: OpCore,
}

impl TaskFuture for YieldMeta {
    fn poll(&mut self, task: TaskRef, reactor: &mut Reactor) -> (r: TaskPoll) {
        self.op.poll_task(task, reactor)
    }
}

/// Yield to the reactor: a nop submission whose completion re-enqueues
/// the task.
pub fn yield_now() -> (r: YieldMeta)
    ensures
        r.op.state == OpState::Fresh,
        r.op.req.sentry == Op::Nop,
        r.op.req.waker is None,
{
    YieldMeta { op: OpCore::new(Op::Nop) }
}

/// Copy `pathname` with a terminating zero byte appended, refusing
/// embedded zero bytes.
pub fn nul_terminate(pathname: &Vec<u8>) -> (r: Option<Vec<u8>>)
    ensures
        r is None <==> pathname@.contains(0u8),
        r matches Some(z) ==> z@ == pathname@.push(0u8),
{
    let mut z: Vec<u8> = Vec::new();
    let mut i: usize = 0;
    while i < pathname.len()
        invariant
            i <= pathname@.len(),
            z@ == pathname@.subrange(0, i as int),
            forall|j: int| 0 <= j < i ==> pathname@[j] != 0u8,
        decreases pathname@.len() - i,
    {
        let b = pathname[i];
        if b == 0 {
            proof {
                assert(pathname@.contains(0u8));
            }
            return None;
        }
        z.push(b);
        i = i + 1;
        proof {
            assert(z@ =~= pathname@.subrange(0, i as int));
        }
    }
    z.push(0);
    proof {
        assert(pathname@.subrange(0, pathname@.len() as int) =~= pathname@);
        if pathname@.contains(0u8) {
            let j = choose|j: int| 0 <= j < pathname@.len() && pathname@[j] == 0u8;
        }
    }
    Some(z)
}

} // verus!
