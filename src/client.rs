use vstd::prelude::*;

use crate::job::{Job, QueueState, Timestamp};
use crate::protocol::Response;

verus! {

/// Why a client request did not give the value asked for.
#[derive(Debug)]
pub enum ClientError {
    /// The daemon refused the request, for the reason given.
    Refused(String),
    /// The daemon answered with a response of the wrong kind.
    Unexpected,
}

/// The id under which a submission was accepted.
pub fn submit_reply(r: Response) -> (out: Result<u64, ClientError>)
    ensures
        r matches Response::SubmitJob(id) ==> out == Ok::<u64, ClientError>(id),
        r matches Response::Error(m) ==> out == Err::<u64, ClientError>(ClientError::Refused(m)),
        !(r is SubmitJob || r is Error) ==> out == Err::<u64, ClientError>(
            ClientError::Unexpected,
        ),
{
    match r {
        Response::SubmitJob(id) => Ok(id),
        Response::Error(m) => Err(ClientError::Refused(m)),
        _ => Err(ClientError::Unexpected),
    }
}

/// The job that a removal took out of the queue.
pub fn remove_reply(r: Response) -> (out: Result<Job, ClientError>)
    ensures
        r matches Response::GetJob(j) ==> out == Ok::<Job, ClientError>(j),
        r matches Response::Error(m) ==> out == Err::<Job, ClientError>(ClientError::Refused(m)),
        !(r is GetJob || r is Error) ==> out == Err::<Job, ClientError>(ClientError::Unexpected),
{
    match r {
        Response::GetJob(j) => Ok(j),
        Response::Error(m) => Err(ClientError::Refused(m)),
        _ => Err(ClientError::Unexpected),
    }
}

/// Whether a kill was delivered.
pub fn kill_reply(r: Response) -> (out: Result<(), ClientError>)
    ensures
        r is Done ==> out == Ok::<(), ClientError>(()),
        r matches Response::Error(m) ==> out == Err::<(), ClientError>(ClientError::Refused(m)),
        !(r is Done || r is Error) ==> out == Err::<(), ClientError>(ClientError::Unexpected),
{
    match r {
        Response::Done => Ok(()),
        Response::Error(m) => Err(ClientError::Refused(m)),
        _ => Err(ClientError::Unexpected),
    }
}

/// The queue state that the daemon reported.
pub fn state_reply(r: Response) -> (out: Result<QueueState, ClientError>)
    ensures
        r matches Response::QueueState(s) ==> out == Ok::<QueueState, ClientError>(s),
        r matches Response::Error(m) ==> out == Err::<QueueState, ClientError>(
            ClientError::Refused(m),
        ),
        !(r is QueueState || r is Error) ==> out == Err::<QueueState, ClientError>(
            ClientError::Unexpected,
        ),
{
    match r {
        Response::QueueState(s) => Ok(s),
        Response::Error(m) => Err(ClientError::Refused(m)),
        _ => Err(ClientError::Unexpected),
    }
}

/// The jobs that the daemon listed.
pub fn jobs_reply(r: Response) -> (out: Result<Vec<Job>, ClientError>)
    ensures
        r matches Response::GetJobs(v) ==> out == Ok::<Vec<Job>, ClientError>(v),
        r matches Response::Error(m) ==> out == Err::<Vec<Job>, ClientError>(
            ClientError::Refused(m),
        ),
        !(r is GetJobs || r is Error) ==> out == Err::<Vec<Job>, ClientError>(
            ClientError::Unexpected,
        ),
{
    match r {
        Response::GetJobs(v) => Ok(v),
        Response::Error(m) => Err(ClientError::Refused(m)),
        _ => Err(ClientError::Unexpected),
    }
}

/// `j` finished strictly before `cutoff`.
pub open spec fn is_expired(j: Job, cutoff: Timestamp) -> bool {
    j.finished is Some && j.finished->0.as_nanos() < cutoff.as_nanos()
}

/// The ids of the jobs in `jobs` that finished before `cutoff`, in order.
pub open spec fn expired(jobs: Seq<Job>, cutoff: Timestamp) -> Seq<u64>
    decreases jobs.len(),
{
    if jobs.len() == 0 {
        Seq::empty()
    } else {
        let rest = expired(jobs.drop_last(), cutoff);
        if is_expired(jobs.last(), cutoff) {
            rest.push(jobs.last().id)
        } else {
            rest
        }
    }
}

/// The instant as nanoseconds since the epoch.
pub fn total_nanos(t: Timestamp) -> (r: u128)
    ensures
        r == t.as_nanos(),
{
    let s: u128 = t.secs as u128;
    assert(s * 1_000_000_000 <= 0xffff_ffff_ffff_ffff * 1_000_000_000) by (nonlinear_arith)
        requires
            s <= 0xffff_ffff_ffff_ffff,
    ;
    s * 1_000_000_000 + t.nanos as u128
}

/// The ids of the jobs that a cleanup removes: those that finished before
/// `cutoff`, in the order listed.
pub fn expired_ids(jobs: &Vec<Job>, cutoff: Timestamp) -> (r: Vec<u64>)
    ensures
        r@ == expired(jobs@, cutoff),
{
    let limit = total_nanos(cutoff);
    let mut r: Vec<u64> = Vec::new();
    let mut i: usize = 0;
    while i < jobs.len()
        invariant
            i <= jobs@.len(),
            limit == cutoff.as_nanos(),
            r@ == expired(jobs@.take(i as int), cutoff),
        decreases jobs@.len() - i,
    {
        let j = &jobs[i];
        assert(jobs@.take(i as int + 1).drop_last() =~= jobs@.take(i as int));
        match j.finished {
            Some(t) => {
                if total_nanos(t) < limit {
                    r.push(j.id);
                }
            },
            None => {},
        }
        i = i + 1;
    }
    assert(jobs@.take(i as int) =~= jobs@);
    r
}

/// The earliest finish time that a cleanup at `now` keeps, for jobs at most
/// `max_age_secs` seconds and `max_age_nanos` nanoseconds old; the epoch where
/// the age reaches back before it.
pub fn cleanup_cutoff(now: Timestamp, max_age_secs: u64, max_age_nanos: u32) -> (r: Timestamp)
    requires
        now.wf(),
        max_age_nanos < 1_000_000_000,
    ensures
        r.wf(),
        now.as_nanos() >= max_age_secs as int * 1_000_000_000 + max_age_nanos as int
            ==> r.as_nanos() == now.as_nanos() - (max_age_secs as int * 1_000_000_000
            + max_age_nanos as int),
        now.as_nanos() < max_age_secs as int * 1_000_000_000 + max_age_nanos as int
            ==> r.as_nanos() == 0,
{
    now.saturating_sub(max_age_secs, max_age_nanos)
}

} // verus!
