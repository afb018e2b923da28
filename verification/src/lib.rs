//! A verified model of a transparent proxy for a request/response wire
//! protocol: the routing rules of the single-backend connection worker, the
//! logging decorator around the forwarding path, and the ordering rules for
//! flattening response streams back onto the client connection.

pub mod backend;
pub mod frame;
pub mod logging;
pub mod orchestrator;

use vstd::prelude::*;

verus! {

/// Capacity of each bounded queue in the proxy: the inbound request queue,
/// each response stream's delivery channel, and the orchestrator's queue of
/// outstanding response streams.
pub const QUEUE_CAPACITY: usize = 100;

/// Why a processing stage refused or could not take a request.
#[derive(Debug, Clone, Copy, PartialEq, Eq, Structural)]
pub enum StageError {
    /// The backend worker has terminated: a fatal, non-retryable condition
    /// for this handle.
    WorkerTerminated,
    /// The inbound request queue's receiving end is gone, so the request
    /// could not be enqueued.
    QueueClosed,
}

impl StageError {
    /// The fixed description used when reporting this error.
    pub fn message(&self) -> (r: &'static str)
        ensures
            *self is WorkerTerminated ==> r@ == "backend task has died"@,
            *self is QueueClosed ==> r@ == "failed to send request to handler"@,
    {
        match self {
            StageError::WorkerTerminated => "backend task has died",
            StageError::QueueClosed => "failed to send request to handler",
        }
    }
}

} // verus!
