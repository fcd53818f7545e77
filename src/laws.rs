use vstd::prelude::*;

use crate::daemon::Daemon;
use crate::job::{QueueState, Timestamp};
use crate::queue::JobQueue;

verus! {

/// Ids follow submission order: of two submissions, where the second starts
/// from a queue whose last id is not below the one the first left (no
/// operation lowers it), the first gets the smaller id, and both are at most
/// the last id after the second.
pub proof fn lemma_ids_increase(
    q0: JobQueue,
    q1: JobQueue,
    c1: Seq<char>,
    t1: Timestamp,
    id1: u64,
    q2: JobQueue,
    q3: JobQueue,
    c2: Seq<char>,
    t2: Timestamp,
    id2: u64,
)
    requires
        JobQueue::submitted(q0, q1, c1, t1, id1),
        q1.last_id <= q2.last_id,
        JobQueue::submitted(q2, q3, c2, t2, id2),
    ensures
        id1 < id2,
        id1 <= q3.last_id,
        id2 <= q3.last_id,
{
}

/// At most one job runs, and none while the queue reports `Stopped` or
/// `Empty`.
pub proof fn lemma_no_job_runs_when_idle(d: Daemon)
    requires
        d.wf(),
    ensures
        d.state() == QueueState::Stopped || d.state() == QueueState::Empty
            ==> d.queue.running is None,
{
}

/// A job is in exactly one place: an id that is queued is neither running nor
/// finished, a running id is not finished, and no id occurs twice among the
/// queued or among the finished jobs.
pub proof fn lemma_one_place(q: JobQueue, id: u64)
    requires
        q.wf(),
    ensures
        q.in_queued(id) ==> !q.in_running(id) && !q.in_finished(id),
        q.in_running(id) ==> !q.in_finished(id),
        forall|i: int, k: int|
            0 <= i < q.queued@.len() && 0 <= k < q.queued@.len() && (#[trigger] q.queued@[i]).id
                == (#[trigger] q.queued@[k]).id ==> i == k,
        forall|i: int, k: int|
            0 <= i < q.finished@.len() && 0 <= k < q.finished@.len() && (
            #[trigger] q.finished@[i]).id == (#[trigger] q.finished@[k]).id ==> i == k,
{
    if q.in_queued(id) {
        let i = choose|i: int| 0 <= i < q.queued@.len() && (#[trigger] q.queued@[i]).id == id;
        assert(!q.in_finished(q.queued@[i].id));
    }
    assert forall|i: int, k: int|
        0 <= i < q.queued@.len() && 0 <= k < q.queued@.len() && (#[trigger] q.queued@[i]).id == (
        #[trigger] q.queued@[k]).id implies i == k by {
        if i < k {
            assert(q.queued@[i].id < q.queued@[k].id);
        } else if k < i {
            assert(q.queued@[k].id < q.queued@[i].id);
        }
    };
}

/// Every finished job finished no earlier than it started, and started no
/// earlier than it was submitted.
pub proof fn lemma_finished_in_order(q: JobQueue, i: int)
    requires
        q.wf(),
        0 <= i < q.finished@.len(),
    ensures
        q.finished@[i].finished is Some,
        q.finished@[i].started is Some,
        q.finished@[i].finished->0.as_nanos() >= q.finished@[i].started->0.as_nanos()
            >= q.finished@[i].submitted.as_nanos(),
{
    let j = q.finished@[i];
    assert(j.wf());
}

/// After a restart from a snapshot taken after a submission, the restored
/// last id is at least the id that submission returned, and is above every id
/// in the restored queue, so the next submission gets a greater id.
pub proof fn lemma_restart_keeps_ids(
    q0: JobQueue,
    q1: JobQueue,
    cmdline: Seq<char>,
    now: Timestamp,
    id: u64,
    snapshot: JobQueue,
    restored: JobQueue,
)
    requires
        JobQueue::submitted(q0, q1, cmdline, now, id),
        q1.last_id <= snapshot.last_id,
        snapshot.wf(),
        restored == snapshot,
    ensures
        restored.last_id >= id,
        forall|i: int| 0 <= i < restored.queued@.len() ==> (#[trigger] restored.queued@[i]).id
            <= restored.last_id,
        forall|i: int| 0 <= i < restored.finished@.len() ==> (#[trigger] restored.finished@[i]).id
            <= restored.last_id,
        restored.running matches Some(r) ==> r.id <= restored.last_id,
{
}

} // verus!
