use vstd::prelude::*;

use crate::job::{Job, QueueState};

verus! {

/// A request by a client to the daemon.
#[derive(Debug)]
pub enum Request {
    /// Submit a job for the given command line, whose first token is an
    /// appkey. Answered by `SubmitJob` or `Error`.
    SubmitJob(String),
    /// Remove the queued or finished job with the given id. Answered by
    /// `GetJob` or `Error`.
    RemoveJob(u64),
    /// Send SIGTERM to the running job with the given id. Answered by `Done` or
    /// `Error`.
    KillJob(u64),
    /// List the queued jobs, the running one included. Answered by `GetJobs`.
    GetQueuedJobs,
    /// List the finished jobs. Answered by `GetJobs`.
    GetFinishedJobs,
    /// Set the queue state. Answered by `QueueState` or `Error`.
    SetQueueState(QueueState),
    /// Ask for the queue state. Answered by `QueueState`.
    GetQueueState,
}

/// The daemon's answer to a request.
#[derive(Debug)]
pub enum Response {
    /// The job was submitted under this id.
    SubmitJob(u64),
    /// A list of jobs.
    GetJobs(Vec<Job>),
    /// A single job.
    GetJob(Job),
    /// The request could not be handled, for the reason given.
    Error(String),
    /// The current queue state.
    QueueState(QueueState),
    /// The request was handled and has no value to return (`Ok` on the
    /// wire).
    Done,
}

} // verus!
