//! Error taxonomy of the runtime: reactor initialisation failure and
//! transient submission-push failure.

use vstd::prelude::*;

verus! {

/// Returned when the reactor's kernel ring could not be constructed.
/// Callers treat this as fatal for the worker thread.
#[derive(Debug)]
pub struct InitFail {
    msg: &'static str,
}

impl InitFail {
    /// The reason the reactor could not be brought up.
    pub closed spec fn reason(&self) -> &'static str {
        self.msg
    }

    pub fn new(msg: &'static str) -> (r: Self)
        ensures
            r.reason() == msg,
    {
        Self { msg }
    }

    /// The human-readable reason the reactor could not be brought up.
    pub fn message(&self) -> (r: &'static str)
        ensures
            r == self.reason(),
    {
        self.msg
    }
}

/// Errors surfaced by the reactor on a submission attempt.
///
/// `Push` is transient: the submission queue is full and the caller should
/// retry after the ring has been flushed or reaped.
#[derive(Debug, PartialEq, Eq, Structural, Clone, Copy)]
pub enum RequestError {
    Push,
}

} // verus!
