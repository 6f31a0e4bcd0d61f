//! Tests of the executor, pool, queue, and reactor state machines,
//! driven without a kernel: completions are fabricated by hand.

use reika::error::RequestError;
use reika::executor::{wake_task, Executor, TaskFuture, TaskPoll};
use reika::io::{File, OpenOptions};
use reika::net::{sockaddr_in_bytes, SockAddrV4};
use reika::ops::{nul_terminate, yield_now, OpPoll, OpState, YieldMeta};
use reika::reactor::{run_for_ns_step, submit_recovery, Reactor, Request, SubmitRecovery, WaitStep};
use reika::sqe::{Cqe, Op, EAGAIN, EBUSY, EINTR, ETIME, NO_OFFSET, O_APPEND, O_CREAT, O_RDWR, O_TRUNC, O_WRONLY};
use reika::task::{TaskPool, TaskRef, TaskState, TaskStorage};

/// A task that asks for an immediate self-wake `spins` times, then
/// completes.
struct Spinner {
    spins: usize,
}

impl TaskFuture for Spinner {
    fn poll(&mut self, _task: TaskRef, _reactor: &mut Reactor) -> TaskPoll {
        if self.spins == 0 {
            TaskPoll::Ready
        } else {
            self.spins -= 1;
            TaskPoll::PendingWake
        }
    }
}

#[test]
fn spawn_increments_and_completion_decrements_live_counter() {
    let mut pool: TaskPool<Spinner> = TaskPool::new(4);
    let mut exec = Executor::new();
    let mut reactor = Reactor::new(8);

    let t1 = pool.prepare_task(Spinner { spins: 0 }).unwrap();
    let t2 = pool.prepare_task(Spinner { spins: 2 }).unwrap();
    assert_eq!(exec.spawned, 0);
    exec.spawn_task(&mut pool, t1);
    assert_eq!(exec.spawned, 1);
    exec.spawn_task(&mut pool, t2);
    assert_eq!(exec.spawned, 2);

    // Round 1: t1 completes, t2 re-enqueues itself.
    let done = exec.run_round(&mut pool, &mut reactor);
    assert_eq!(done, 1);
    assert_eq!(exec.spawned, 1);
    // Rounds 2 and 3: t2 spins, then completes.
    assert_eq!(exec.run_round(&mut pool, &mut reactor), 0);
    assert_eq!(exec.run_round(&mut pool, &mut reactor), 1);
    assert_eq!(exec.spawned, 0);
}

#[test]
fn run_drives_all_tasks_to_completion() {
    let mut pool: TaskPool<Spinner> = TaskPool::new(3);
    let mut exec = Executor::new();
    let mut reactor = Reactor::new(8);
    for spins in 0..3 {
        let t = pool.prepare_task(Spinner { spins }).unwrap();
        exec.spawn_task(&mut pool, t);
    }
    assert!(exec.run(&mut pool, &mut reactor, 10));
    assert_eq!(exec.spawned, 0);
}

#[test]
fn pool_capacity_one_rejects_second_prepare() {
    let mut pool: TaskPool<Spinner> = TaskPool::new(1);
    let first = pool.prepare_task(Spinner { spins: 0 });
    assert!(first.is_some());
    let second = pool.prepare_task(Spinner { spins: 0 });
    assert!(second.is_none());
}

#[test]
fn pool_exhaustion_and_reuse() {
    // Two slots, three tasks: the third prepare fails; after one task
    // completes, a further prepare succeeds and empties the free list.
    let mut pool: TaskPool<Spinner> = TaskPool::new(2);
    let mut exec = Executor::new();
    let mut reactor = Reactor::new(8);

    let t1 = pool.prepare_task(Spinner { spins: 0 }).unwrap();
    let t2 = pool.prepare_task(Spinner { spins: 5 }).unwrap();
    assert!(pool.prepare_task(Spinner { spins: 0 }).is_none());

    exec.spawn_task(&mut pool, t1);
    exec.spawn_task(&mut pool, t2);
    exec.run_round(&mut pool, &mut reactor);
    // t1 finished and went back to the free list.
    assert_eq!(pool.headers[t1.idx].state, TaskState::Free);
    assert!(pool.free_list.head.is_some());

    let t3 = pool.prepare_task(Spinner { spins: 0 }).unwrap();
    assert_eq!(t3.idx, t1.idx);
    // The free list is empty again.
    assert!(pool.free_list.head.is_none());
    assert!(pool.prepare_task(Spinner { spins: 0 }).is_none());
}

#[test]
fn queue_drains_in_lifo_order() {
    let mut pool: TaskPool<Spinner> = TaskPool::new(3);
    let mut exec = Executor::new();
    let a = pool.prepare_task(Spinner { spins: 0 }).unwrap();
    let b = pool.prepare_task(Spinner { spins: 0 }).unwrap();
    let c = pool.prepare_task(Spinner { spins: 0 }).unwrap();
    exec.spawn_task(&mut pool, a);
    exec.spawn_task(&mut pool, b);
    exec.spawn_task(&mut pool, c);
    let drained = exec.task_queue.drain(&mut pool.headers);
    let ids: Vec<usize> = drained.iter().map(|t| t.as_ptr()).collect();
    assert_eq!(ids, vec![c.idx, b.idx, a.idx]);
    // Every link was cleared on the way out.
    for t in &drained {
        assert!(pool.headers[t.idx].executor_queue_item.next.is_none());
    }
}

/// A task that parks on a nop submission and completes on the next poll
/// after the completion arrives.
struct NopTask {
    op: YieldMeta,
}

impl TaskFuture for NopTask {
    fn poll(&mut self, task: TaskRef, reactor: &mut Reactor) -> TaskPoll {
        match self.op.op.poll_op(task, reactor) {
            OpPoll::Ready(v) => {
                assert_eq!(v, 0);
                TaskPoll::Ready
            }
            OpPoll::Pending => TaskPoll::Pending,
            OpPoll::PendingWake => TaskPoll::PendingWake,
        }
    }
}

#[test]
fn nop_yield_round_trip() {
    // Spawn a task that awaits a nop: one drain submits it, the reactor
    // turn completes it with result 0, the woken task polls ready.
    let mut pool: TaskPool<NopTask> = TaskPool::new(1);
    let mut exec = Executor::new();
    let mut reactor = Reactor::new(8);

    let t = pool.prepare_task(NopTask { op: yield_now() }).unwrap();
    exec.spawn_task(&mut pool, t);

    let done = exec.run_round(&mut pool, &mut reactor);
    assert_eq!(done, 0);
    assert_eq!(pool.headers[t.idx].state, TaskState::Waiting);
    assert!(reactor.requires_reaping());

    // Kernel turn: the one staged entry is the nop; complete it.
    let staged = reactor.take_staged();
    assert_eq!(staged.len(), 1);
    assert_eq!(staged[0].op, Op::Nop);
    assert_ne!(staged[0].user_data, 0);
    let cqes = vec![Cqe { user_data: staged[0].user_data, result: 0 }];
    let (collected, timeouts, etime) =
        reactor.flush_completions(&mut exec, &mut pool.headers, &cqes, 0, false);
    assert_eq!((collected, timeouts, etime), (1, 0, false));
    assert!(!reactor.requires_reaping());
    assert_eq!(pool.headers[t.idx].state, TaskState::Queued);

    // Post-drain advance done; the next round completes the task.
    let done = exec.run_round(&mut pool, &mut reactor);
    assert_eq!(done, 1);
    assert_eq!(exec.spawned, 0);
}

#[test]
fn waking_an_enqueued_task_changes_nothing() {
    let mut pool: TaskPool<NopTask> = TaskPool::new(1);
    let mut exec = Executor::new();
    let mut reactor = Reactor::new(8);
    let t = pool.prepare_task(NopTask { op: yield_now() }).unwrap();
    exec.spawn_task(&mut pool, t);
    exec.run_round(&mut pool, &mut reactor);
    let staged = reactor.take_staged();
    let cqes = vec![Cqe { user_data: staged[0].user_data, result: 0 }];
    reactor.flush_completions(&mut exec, &mut pool.headers, &cqes, 0, false);
    assert_eq!(pool.headers[t.idx].state, TaskState::Queued);
    let head_before = exec.task_queue.head;
    let link_before = pool.headers[t.idx].executor_queue_item.next;
    let spawned_before = exec.spawned;
    // A second wake on the already-enqueued task is a guarded no-op.
    wake_task(&mut exec, &mut pool.headers, t);
    assert_eq!(exec.task_queue.head, head_before);
    assert_eq!(pool.headers[t.idx].executor_queue_item.next, link_before);
    assert_eq!(exec.spawned, spawned_before);
    // The task is polled exactly once in the next round.
    assert_eq!(exec.run_round(&mut pool, &mut reactor), 1);
    assert_eq!(exec.spawned, 0);
}

#[test]
fn ring_full_submit_returns_push_failure() {
    // A ring of four entries accepts four un-reaped submissions; the
    // fifth is refused and nothing changes.
    let mut reactor = Reactor::new(4);
    for i in 0..4 {
        let r = reactor.submit(Request::new(Op::Nop));
        assert_eq!(r.unwrap(), (i + 1) as u64);
    }
    assert_eq!(reactor.req_queued, 4);
    let r = reactor.submit(Request::new(Op::Nop));
    assert_eq!(r.unwrap_err(), RequestError::Push);
    assert_eq!(reactor.req_queued, 4);
    assert_eq!(reactor.staged.len(), 4);
}

#[test]
fn timeout_only_tick_submits_one_marker_and_sees_etime() {
    // With nothing outstanding, one tick stages exactly one timeout
    // marker; the -ETIME completion ends the wait with the counter back
    // at zero.
    let mut pool: TaskPool<NopTask> = TaskPool::new(1);
    let mut exec = Executor::new();
    let mut reactor = Reactor::new(8);
    assert!(!reactor.requires_reaping());

    reactor.stage_timeout(100, 250).unwrap();
    let timeouts = 1usize;
    let staged = reactor.take_staged();
    assert_eq!(staged.len(), 1);
    assert_eq!(staged[0].user_data, 0);
    assert_eq!(staged[0].op, Op::Timeout { sec: 100, nsec: 250 });

    let cqes = vec![Cqe { user_data: 0, result: -ETIME }];
    let (collected, timeouts, etime) =
        reactor.flush_completions(&mut exec, &mut pool.headers, &cqes, timeouts, false);
    assert_eq!((collected, timeouts, etime), (0, 0, true));
}

#[test]
fn zero_length_wait_still_performs_a_cycle() {
    // A zero-nanosecond wait stages its timeout marker all the same: the
    // deadline is simply "now".
    let mut reactor = Reactor::new(8);
    let now_sec = 7u64;
    let now_nsec = 123u32;
    let ns = 0u32;
    reactor.stage_timeout(now_sec, now_nsec + ns).unwrap();
    let staged = reactor.take_staged();
    assert_eq!(staged.len(), 1);
    assert_eq!(staged[0].op, Op::Timeout { sec: 7, nsec: 123 });
    assert_eq!(staged[0].user_data, 0);
}

#[test]
fn take_result_collects_once_and_frees_the_slot() {
    let mut pool: TaskPool<NopTask> = TaskPool::new(1);
    let mut exec = Executor::new();
    let mut reactor = Reactor::new(4);
    let rid = reactor.submit(Request::new(Op::Nop)).unwrap();
    assert!(reactor.take_result(rid).is_none());
    let cqes = vec![Cqe { user_data: rid, result: 41 }];
    reactor.flush_completions(&mut exec, &mut pool.headers, &cqes, 0, false);
    assert_eq!(reactor.take_result(rid), Some(41));
    assert!(reactor.take_result(rid).is_none());
    // The slot is reused by the next submission.
    let rid2 = reactor.submit(Request::new(Op::Nop)).unwrap();
    assert_eq!(rid2, rid);
}

#[test]
fn standalone_storage_retires_its_task() {
    let mut storage: TaskStorage<Spinner> = TaskStorage::new();
    let mut exec = Executor::new();
    let mut reactor = Reactor::new(4);
    let t = storage.prepare_task(Spinner { spins: 1 });
    exec.spawn_task(&mut storage.pool, t);
    assert!(exec.run(&mut storage.pool, &mut reactor, 5));
    // No free list for standalone storage: the slot is retired for good.
    assert_eq!(storage.pool.headers[t.idx].state, TaskState::Retired);
    assert!(storage.pool.prepare_task(Spinner { spins: 0 }).is_none());
}

#[test]
fn open_flag_combinations() {
    let mut o = OpenOptions::new();
    o.read(true);
    assert_eq!(o.open_flags(), 0);
    let mut o = OpenOptions::new();
    o.write(true);
    assert_eq!(o.open_flags(), O_WRONLY);
    let mut o = OpenOptions::new();
    o.read(true);
    o.write(true);
    assert_eq!(o.open_flags(), O_RDWR);
    let mut o = OpenOptions::new();
    o.create(true);
    o.write(true);
    o.truncate(true);
    o.append(true);
    assert_eq!(o.open_flags(), O_APPEND | O_TRUNC | O_CREAT | O_WRONLY);
    let mut o = OpenOptions::new();
    o.read(true);
    o.flags(O_CREAT);
    assert_eq!(o.open_flags(), O_CREAT);
}

#[test]
fn paths_with_embedded_zero_bytes_are_rejected() {
    let good = b"/etc/hostname".to_vec();
    let z = nul_terminate(&good).unwrap();
    assert_eq!(z.len(), good.len() + 1);
    assert_eq!(z.last(), Some(&0u8));
    let bad = vec![47u8, 0u8, 47u8];
    assert!(nul_terminate(&bad).is_none());
    assert!(File::open(&bad, 1).is_none());
    let meta = File::open(&good, 1).unwrap();
    assert_eq!(meta.path, z);
}

#[test]
fn sockaddr_encoding_is_exact() {
    let addr = SockAddrV4 { a: 127, b: 0, c: 0, d: 1, port: 2310 };
    let bytes = sockaddr_in_bytes(&addr);
    // 2310 = 0x0906, big-endian on the wire.
    assert_eq!(
        bytes,
        vec![2u8, 0, 9, 6, 127, 0, 0, 1, 0, 0, 0, 0, 0, 0, 0, 0]
    );
}

#[test]
fn read_write_constructors_encode_offsets() {
    let f = File::from_fd(5);
    let m = f.read(1000, 4096);
    assert_eq!(
        m.op.req.sentry,
        Op::Read { fd: 5, addr: 1000, len: 4096, offset: NO_OFFSET }
    );
    let m = f.read_at(1000, 4096, 77);
    assert_eq!(m.op.req.sentry, Op::Read { fd: 5, addr: 1000, len: 4096, offset: 77 });
    let m = f.write_at(2000, 16, 8);
    assert_eq!(m.op.req.sentry, Op::Write { fd: 5, addr: 2000, len: 16, offset: 8 });
    assert!(matches!(m.op.state, OpState::Fresh));
}

#[test]
fn error_types_carry_their_reasons() {
    let e = reika::error::InitFail::new("failed to initialize the ring");
    assert_eq!(e.message(), "failed to initialize the ring");
    assert_eq!(RequestError::Push, RequestError::Push);
}

#[test]
fn run_with_no_tasks_returns_immediately() {
    let mut pool: TaskPool<Spinner> = TaskPool::new(2);
    let mut exec = Executor::new();
    let mut reactor = Reactor::new(4);
    assert!(exec.run(&mut pool, &mut reactor, 0));
    assert_eq!(exec.run_round(&mut pool, &mut reactor), 0);
}

#[test]
fn empty_completion_batch_changes_nothing() {
    let mut pool: TaskPool<Spinner> = TaskPool::new(1);
    let mut exec = Executor::new();
    let mut reactor = Reactor::new(4);
    let cqes: Vec<Cqe> = Vec::new();
    let r = reactor.flush_completions(&mut exec, &mut pool.headers, &cqes, 3, true);
    assert_eq!(r, (0, 3, true));
}

#[test]
fn zero_capacity_pool_accepts_nothing() {
    let mut pool: TaskPool<Spinner> = TaskPool::new(0);
    assert!(pool.prepare_task(Spinner { spins: 0 }).is_none());
}

#[test]
fn op_outcome_translates_negative_results() {
    assert_eq!(reika::ops::op_outcome(5), Ok(5));
    assert_eq!(reika::ops::op_outcome(0), Ok(0));
    assert_eq!(reika::ops::op_outcome(-2), Err(2));
}

#[test]
fn wait_step_decisions() {
    assert_eq!(
        run_for_ns_step(0, false, 7, 100, 50),
        WaitStep::PushMarker { sec: 7, nsec: 150 }
    );
    assert_eq!(run_for_ns_step(2, true, 7, 100, 50), WaitStep::Drain);
    assert_eq!(run_for_ns_step(0, true, 7, 100, 50), WaitStep::Done);
}

#[test]
fn submit_recovery_policy() {
    assert_eq!(submit_recovery(EINTR), SubmitRecovery::Retry);
    assert_eq!(submit_recovery(EBUSY), SubmitRecovery::ReapThenRetry);
    assert_eq!(submit_recovery(EAGAIN), SubmitRecovery::ReapThenRetry);
    assert_eq!(submit_recovery(5), SubmitRecovery::Fail);
}
