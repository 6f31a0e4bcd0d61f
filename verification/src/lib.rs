//! Core of a per-thread cooperative asynchronous runtime: a task executor
//! built on intrusively linked task slots, and the submission/completion
//! state machine of an `io_uring`-style I/O reactor.
//!
//! The executor side (task queue, task pool, live-task accounting) and the
//! reactor side (submission descriptors, request table, completion dispatch,
//! and the decisions of the bounded wait and the submit recovery) are
//! modelled and verified here. The embedding program owns the kernel ring
//! and the clock: it performs the blocking calls, steered by
//! [`reactor::run_for_ns_step`] and [`reactor::submit_recovery`], passes
//! staged submissions to the kernel, and feeds completion entries back into
//! [`reactor::Reactor::flush_completions`].

pub mod counting;
pub mod error;
pub mod executor;
pub mod io;
pub mod net;
pub mod ops;
pub mod queue;
pub mod reactor;
pub mod runtime;
pub mod sqe;
pub mod task;

