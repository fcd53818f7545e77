use vstd::prelude::*;

use crate::appkeys::Appkeys;
use crate::job::{ExitStatus, Job, JobStatus, Timestamp};

verus! {

/// Why the queue store refused an operation.
#[derive(Clone, Copy, Debug, PartialEq, Eq, Structural)]
pub enum QueueError {
    /// The first token of the command line is not a registered appkey.
    BadAppkey,
    /// No job has the given id.
    NotFound,
    /// The operation does not act on the running job.
    Running,
    /// The job is not the one this operation expects: not the head of the
    /// queue, or not the running job.
    NotEligible,
    /// A job is running already.
    Busy,
    /// The running job has no child process yet.
    NotSpawned,
    /// Every job id has been handed out.
    IdsExhausted,
}

/// All jobs the daemon knows: queued in submission order, the running one,
/// and the finished ones in order of completion, with the last id handed out.
#[derive(Debug)]
pub struct JobQueue {
    pub last_id: u64,
    pub queued: Vec<Job>,
    pub running: Option<Job>,
    pub finished: Vec<Job>,
}

/// `id` is one of the ids in `s`.
pub open spec fn has_id(s: Seq<Job>, id: u64) -> bool {
    exists|i: int| 0 <= i < s.len() && (#[trigger] s[i]).id == id
}

impl JobQueue {
    pub open spec fn in_queued(&self, id: u64) -> bool {
        has_id(self.queued@, id)
    }

    pub open spec fn in_running(&self, id: u64) -> bool {
        self.running matches Some(r) && r.id == id
    }

    pub open spec fn in_finished(&self, id: u64) -> bool {
        has_id(self.finished@, id)
    }

    /// The queue's invariant: every job is well formed and sits where its
    /// status says; ids are unique over all three places, at most `last_id`,
    /// and increase along the queue.
    pub open spec fn wf(&self) -> bool {
        &&& forall|i: int|
            0 <= i < self.queued@.len() ==> {
                let j = #[trigger] self.queued@[i];
                j.wf() && j.status == JobStatus::Queued && 1 <= j.id <= self.last_id
            }
        &&& forall|i: int|
            0 <= i < self.finished@.len() ==> {
                let j = #[trigger] self.finished@[i];
                j.wf() && j.status is Terminated && 1 <= j.id <= self.last_id
            }
        &&& (self.running matches Some(r) ==> r.wf() && r.status == JobStatus::Running && 1
            <= r.id <= self.last_id && !self.in_queued(r.id) && !self.in_finished(r.id))
        &&& forall|i: int, k: int|
            0 <= i < k < self.queued@.len() ==> (#[trigger] self.queued@[i]).id < (
            #[trigger] self.queued@[k]).id
        &&& forall|i: int, k: int|
            0 <= i < self.finished@.len() && 0 <= k < self.finished@.len() && i != k ==> (
            #[trigger] self.finished@[i]).id != (#[trigger] self.finished@[k]).id
        &&& forall|i: int|
            0 <= i < self.queued@.len() ==> !self.in_finished((#[trigger] self.queued@[i]).id)
    }

    /// What a successful submission does: the queue gains a fresh job with
    /// the next id at its tail, and nothing else changes.
    pub open spec fn submitted(
        before: JobQueue,
        after: JobQueue,
        cmdline: Seq<char>,
        now: Timestamp,
        id: u64,
    ) -> bool {
        &&& id == before.last_id + 1
        &&& after.last_id == id
        &&& after.queued@.len() == before.queued@.len() + 1
        &&& after.queued@.drop_last() == before.queued@
        &&& after.queued@.last().is_fresh(id, cmdline, now)
        &&& after.running == before.running
        &&& after.finished@ == before.finished@
    }

    /// An empty queue that will hand out ids after `last_id`.
    pub fn new(last_id: u64) -> (r: JobQueue)
        ensures
            r.wf(),
            r.last_id == last_id,
            r.queued@.len() == 0,
            r.running is None,
            r.finished@.len() == 0,
    {
        JobQueue { last_id, queued: Vec::new(), running: None, finished: Vec::new() }
    }

    /// Appends a new queued job for `cmdline`, submitted at `now`, and returns
    /// its id, one more than the last id handed out. Refused where the appkey
    /// of `cmdline` is not registered, or where no id is left.
    pub fn submit(&mut self, cmdline: String, now: Timestamp, appkeys: &Appkeys) -> (r: Result<
        u64,
        QueueError,
    >)
        requires
            old(self).wf(),
            appkeys.wf(),
            now.wf(),
        ensures
            final(self).wf(),
            appkeys.resolve_spec(cmdline@) is None ==> r == Err::<u64, QueueError>(
                QueueError::BadAppkey,
            ),
            appkeys.resolve_spec(cmdline@) is Some && old(self).last_id == u64::MAX ==> r == Err::<
                u64,
                QueueError,
            >(QueueError::IdsExhausted),
            appkeys.resolve_spec(cmdline@) is Some && old(self).last_id < u64::MAX ==> r is Ok,
            r matches Ok(id) ==> Self::submitted(*old(self), *final(self), cmdline@, now, id),
            r is Err ==> *final(self) == *old(self),
    {
        if appkeys.resolve(cmdline.as_str()).is_none() {
            return Err(QueueError::BadAppkey);
        }
        if self.last_id == u64::MAX {
            return Err(QueueError::IdsExhausted);
        }
        let id = self.last_id + 1;
        let job = Job {
            id,
            cmdline,
            expanded_cmdline: None,
            status: JobStatus::Queued,
            stdout: String::new(),
            stderr: String::new(),
            submitted: now,
            started: None,
            finished: None,
            pid: None,
        };
        let ghost before = *self;
        self.queued.push(job);
        self.last_id = id;
        proof {
            assert(self.queued@.drop_last() =~= before.queued@);
            assert forall|i: int| 0 <= i < self.queued@.len() - 1 implies (
            #[trigger] self.queued@[i]).id < id by {
                assert(before.queued@[i].id <= before.last_id);
            };
            assert forall|i: int| 0 <= i < self.finished@.len() implies (
            #[trigger] self.finished@[i]).id != id by {
                assert(before.finished@[i].id <= before.last_id);
            };
            assert forall|i: int| 0 <= i < self.queued@.len() implies !self.in_finished(
                (#[trigger] self.queued@[i]).id,
            ) by {
                if i < self.queued@.len() - 1 {
                    assert(before.queued@[i] == self.queued@[i]);
                    assert(!before.in_finished(before.queued@[i].id));
                } else {
                    if self.in_finished(id) {
                        let k = choose|k: int|
                            0 <= k < self.finished@.len() && (#[trigger] self.finished@[k]).id
                                == id;
                    }
                }
            };
            if self.running is Some {
                let r = self.running->0;
                assert(!self.in_queued(r.id)) by {
                    if self.in_queued(r.id) {
                        let k = choose|k: int|
                            0 <= k < self.queued@.len() && (#[trigger] self.queued@[k]).id
                                == r.id;
                        if k < self.queued@.len() - 1 {
                            assert(before.queued@[k] == self.queued@[k]);
                        }
                    }
                };
            }
        }
        Ok(id)
    }

    /// The instant a job that was submitted at `submitted` starts when the
    /// clock reads `now`: never before its submission.
    pub open spec fn start_time(submitted: Timestamp, now: Timestamp) -> Timestamp {
        if now.as_nanos() >= submitted.as_nanos() {
            now
        } else {
            submitted
        }
    }

    /// The id of the job at the head of the queue, the next one to start.
    pub fn head(&self) -> (r: Option<u64>)
        ensures
            self.queued@.len() == 0 ==> r is None,
            self.queued@.len() > 0 ==> r == Some(self.queued@[0].id),
    {
        if self.queued.len() == 0 {
            None
        } else {
            Some(self.queued[0].id)
        }
    }

    /// Moves the head of the queue, which must be job `id`, into the running
    /// slot: it records the command line that runs and the start time, and no
    /// child process yet.
    pub fn mark_running(&mut self, id: u64, expanded: String, now: Timestamp) -> (r: Result<
        (),
        QueueError,
    >)
        requires
            old(self).wf(),
            now.wf(),
        ensures
            final(self).wf(),
            old(self).running is Some ==> r == Err::<(), QueueError>(QueueError::Busy),
            old(self).running is None && (old(self).queued@.len() == 0 || old(self).queued@[0].id
                != id) ==> r == Err::<(), QueueError>(QueueError::NotEligible),
            old(self).running is None && old(self).queued@.len() > 0 && old(self).queued@[0].id
                == id ==> r is Ok,
            r is Err ==> *final(self) == *old(self),
            r is Ok ==> {
                let h = old(self).queued@[0];
                &&& old(self).running is None
                &&& old(self).queued@.len() > 0
                &&& h.id == id
                &&& final(self).queued@ == old(self).queued@.skip(1)
                &&& final(self).finished@ == old(self).finished@
                &&& final(self).last_id == old(self).last_id
                &&& final(self).running matches Some(j) && {
                    &&& j.id == id
                    &&& j.cmdline == h.cmdline
                    &&& j.expanded_cmdline == Some(expanded)
                    &&& j.status == JobStatus::Running
                    &&& j.stdout == h.stdout
                    &&& j.stderr == h.stderr
                    &&& j.submitted == h.submitted
                    &&& j.started == Some(Self::start_time(h.submitted, now))
                    &&& j.finished is None
                    &&& j.pid is None
                }
            },
    {
        if self.running.is_some() {
            return Err(QueueError::Busy);
        }
        if self.queued.len() == 0 || self.queued[0].id != id {
            return Err(QueueError::NotEligible);
        }
        let ghost before = *self;
        let mut job = self.queued.remove(0);
        let started = Timestamp::latest(now, job.submitted);
        job.status = JobStatus::Running;
        job.expanded_cmdline = Some(expanded);
        job.started = Some(started);
        job.pid = None;
        self.running = Some(job);
        proof {
            assert(self.queued@ =~= before.queued@.skip(1));
            assert forall|i: int| 0 <= i < self.queued@.len() implies (#[trigger] self.queued@[i])
                == before.queued@[i + 1] by {};
            assert(!self.in_queued(id)) by {
                if self.in_queued(id) {
                    let k = choose|k: int|
                        0 <= k < self.queued@.len() && (#[trigger] self.queued@[k]).id == id;
                    assert(before.queued@[0].id < before.queued@[k + 1].id);
                }
            };
            assert(!self.in_finished(id)) by {
                assert(!before.in_finished(before.queued@[0].id));
            };
            assert forall|i: int| 0 <= i < self.queued@.len() implies !self.in_finished(
                (#[trigger] self.queued@[i]).id,
            ) by {
                assert(!before.in_finished(before.queued@[i + 1].id));
            };
            assert forall|i: int, k: int| 0 <= i < k < self.queued@.len() implies (
            #[trigger] self.queued@[i]).id < (#[trigger] self.queued@[k]).id by {
                assert(before.queued@[i + 1].id < before.queued@[k + 1].id);
            };
        }
        Ok(())
    }

    /// Records the child process of the running job `id`.
    pub fn set_pid(&mut self, id: u64, pid: u32) -> (r: Result<(), QueueError>)
        requires
            old(self).wf(),
        ensures
            final(self).wf(),
            r is Ok <==> old(self).in_running(id),
            r is Err ==> r == Err::<(), QueueError>(QueueError::NotEligible) && *final(self)
                == *old(self),
            r is Ok ==> {
                &&& final(self).queued@ == old(self).queued@
                &&& final(self).finished@ == old(self).finished@
                &&& final(self).last_id == old(self).last_id
                &&& final(self).running == Some(Job { pid: Some(pid), ..old(self).running->0 })
            },
    {
        match self.running.take() {
            None => Err(QueueError::NotEligible),
            Some(mut job) => {
                if job.id != id {
                    self.running = Some(job);
                    Err(QueueError::NotEligible)
                } else {
                    job.pid = Some(pid);
                    self.running = Some(job);
                    Ok(())
                }
            },
        }
    }

    /// The pid to signal to kill job `id`: that of the running job. Refused
    /// where `id` is not the running job, or its child has not been spawned.
    pub fn kill(&self, id: u64) -> (r: Result<u32, QueueError>)
        ensures
            !self.in_running(id) ==> r == Err::<u32, QueueError>(QueueError::NotEligible),
            self.in_running(id) && self.running->0.pid is None ==> r == Err::<u32, QueueError>(
                QueueError::NotSpawned,
            ),
            self.in_running(id) && self.running->0.pid is Some ==> r == Ok::<u32, QueueError>(
                self.running->0.pid->0,
            ),
    {
        match &self.running {
            Some(job) => {
                if job.id != id {
                    Err(QueueError::NotEligible)
                } else {
                    match job.pid {
                        Some(pid) => Ok(pid),
                        None => Err(QueueError::NotSpawned),
                    }
                }
            },
            None => Err(QueueError::NotEligible),
        }
    }

    /// The instant a job that started at `started` finishes when the clock
    /// reads `now`: never before its start.
    pub open spec fn finish_time(started: Timestamp, now: Timestamp) -> Timestamp {
        Self::start_time(started, now)
    }

    /// Moves the running job, which must be job `id`, to the end of the
    /// finished jobs with its exit status, its output and its finish time.
    pub fn mark_finished(
        &mut self,
        id: u64,
        exit: ExitStatus,
        stdout: String,
        stderr: String,
        now: Timestamp,
    ) -> (r: Result<(), QueueError>)
        requires
            old(self).wf(),
            now.wf(),
        ensures
            final(self).wf(),
            r is Ok <==> old(self).in_running(id),
            r is Err ==> r == Err::<(), QueueError>(QueueError::NotEligible) && *final(self)
                == *old(self),
            r is Ok ==> {
                let o = old(self).running->0;
                &&& final(self).running is None
                &&& final(self).queued@ == old(self).queued@
                &&& final(self).last_id == old(self).last_id
                &&& final(self).finished@.len() == old(self).finished@.len() + 1
                &&& final(self).finished@.drop_last() == old(self).finished@
                &&& final(self).finished@.last() == (Job {
                    status: JobStatus::Terminated(exit),
                    stdout: stdout,
                    stderr: stderr,
                    finished: Some(Self::finish_time(o.started->0, now)),
                    pid: None,
                    ..o
                })
                &&& final(self).finished@.last().finished->0.as_nanos()
                    >= final(self).finished@.last().started->0.as_nanos()
                    >= final(self).finished@.last().submitted.as_nanos()
            },
    {
        match self.running.take() {
            None => Err(QueueError::NotEligible),
            Some(mut job) => {
                if job.id != id {
                    self.running = Some(job);
                    return Err(QueueError::NotEligible);
                }
                let ghost before = *old(self);
                let started = match job.started {
                    Some(s) => s,
                    None => job.submitted,
                };
                job.status = JobStatus::Terminated(exit);
                job.stdout = stdout;
                job.stderr = stderr;
                job.finished = Some(Timestamp::latest(now, started));
                job.pid = None;
                self.finished.push(job);
                proof {
                    assert(self.finished@.drop_last() =~= before.finished@);
                    assert forall|i: int| 0 <= i < self.queued@.len() implies !self.in_finished(
                        (#[trigger] self.queued@[i]).id,
                    ) by {
                        let x = self.queued@[i].id;
                        assert(!before.in_finished(x));
                        assert(x != id);
                        if self.in_finished(x) {
                            let k = choose|k: int|
                                0 <= k < self.finished@.len() && (#[trigger] self.finished@[k]).id
                                    == x;
                            assert(before.finished@[k].id == x);
                        }
                    };
                    assert forall|i: int, k: int|
                        0 <= i < self.finished@.len() && 0 <= k < self.finished@.len() && i
                            != k implies (#[trigger] self.finished@[i]).id != (
                    #[trigger] self.finished@[k]).id by {
                        let n = before.finished@.len() as int;
                        if i == n {
                            assert(self.finished@[k] == before.finished@[k]);
                        } else if k == n {
                            assert(self.finished@[i] == before.finished@[i]);
                        } else {
                            assert(self.finished@[i] == before.finished@[i]);
                            assert(self.finished@[k] == before.finished@[k]);
                        }
                    };
                    assert forall|i: int| 0 <= i < self.finished@.len() implies {
                        let j = #[trigger] self.finished@[i];
                        j.wf() && j.status is Terminated && 1 <= j.id <= self.last_id
                    } by {
                        if i < before.finished@.len() {
                            assert(self.finished@[i] == before.finished@[i]);
                        }
                    };
                }
                Ok(())
            },
        }
    }


    /// Removes job `id` from the queued or the finished jobs and returns it.
    /// Refused for the running job and for an id that no job has.
    pub fn remove(&mut self, id: u64) -> (r: Result<Job, QueueError>)
        requires
            old(self).wf(),
        ensures
            final(self).wf(),
            old(self).in_running(id) ==> r == Err::<Job, QueueError>(QueueError::Running),
            !old(self).in_running(id) && !old(self).in_queued(id) && !old(self).in_finished(id)
                ==> r == Err::<Job, QueueError>(QueueError::NotFound),
            old(self).in_queued(id) || old(self).in_finished(id) ==> r is Ok,
            r is Err ==> *final(self) == *old(self),
            r matches Ok(j) ==> {
                &&& j.id == id
                &&& final(self).running == old(self).running
                &&& final(self).last_id == old(self).last_id
                &&& !final(self).in_queued(id)
                &&& !final(self).in_finished(id)
                &&& (exists|i: int|
                    0 <= i < old(self).queued@.len() && old(self).queued@[i] == j
                        && final(self).queued@ == old(self).queued@.remove(i)
                        && final(self).finished@ == old(self).finished@)
                    || (exists|i: int|
                    0 <= i < old(self).finished@.len() && old(self).finished@[i] == j
                        && final(self).finished@ == old(self).finished@.remove(i)
                        && final(self).queued@ == old(self).queued@)
            },
    {
        if let Some(job) = &self.running {
            if job.id == id {
                return Err(QueueError::Running);
            }
        }
        let ghost before = *self;
        match find_index(&self.queued, id) {
            Some(i) => {
                let job = self.queued.remove(i);
                proof {
                    assert forall|k: int| 0 <= k < self.queued@.len() implies (#[trigger] self.queued@[k])
                        == if k < i { before.queued@[k] } else { before.queued@[k + 1] } by {};
                    assert forall|a: int, b: int| 0 <= a < b < self.queued@.len() implies (
                    #[trigger] self.queued@[a]).id < (#[trigger] self.queued@[b]).id by {
                        let a2 = if a < i { a } else { a + 1 };
                        let b2 = if b < i { b } else { b + 1 };
                        assert(before.queued@[a2].id < before.queued@[b2].id);
                    };
                    assert forall|k: int| 0 <= k < self.queued@.len() implies !self.in_finished(
                        (#[trigger] self.queued@[k]).id,
                    ) by {
                        let k2 = if k < i { k } else { k + 1 };
                        assert(!before.in_finished(before.queued@[k2].id));
                    };
                    assert(!self.in_queued(id)) by {
                        if self.in_queued(id) {
                            let k = choose|k: int|
                                0 <= k < self.queued@.len() && (#[trigger] self.queued@[k]).id
                                    == id;
                            let k2 = if k < i { k } else { k + 1 };
                            if k2 < i {
                                assert(before.queued@[k2].id < before.queued@[i as int].id);
                            } else {
                                assert(before.queued@[i as int].id < before.queued@[k2].id);
                            }
                        }
                    };
                    assert(!self.in_finished(id)) by {
                        assert(!before.in_finished(before.queued@[i as int].id));
                    };
                    if self.running is Some {
                        let rid = self.running->0.id;
                        assert(!self.in_queued(rid)) by {
                            if self.in_queued(rid) {
                                let k = choose|k: int|
                                    0 <= k < self.queued@.len() && (#[trigger] self.queued@[k]).id
                                        == rid;
                                let k2 = if k < i { k } else { k + 1 };
                                assert(before.queued@[k2].id == rid);
                            }
                        };
                    }
                }
                Ok(job)
            },
            None => {
                match find_index(&self.finished, id) {
                    Some(i) => {
                        let job = self.finished.remove(i);
                        proof {
                            assert forall|k: int| 0 <= k < self.finished@.len() implies (#[trigger] self.finished@[k])
                                == if k < i { before.finished@[k] } else { before.finished@[k + 1] } by {};
                            assert forall|a: int, b: int|
                                0 <= a < self.finished@.len() && 0 <= b < self.finished@.len() && a
                                    != b implies (#[trigger] self.finished@[a]).id != (
                            #[trigger] self.finished@[b]).id by {
                                let a2 = if a < i { a } else { a + 1 };
                                let b2 = if b < i { b } else { b + 1 };
                                assert(before.finished@[a2].id != before.finished@[b2].id);
                            };
                            assert forall|x: u64| #[trigger] self.in_finished(x) implies before.in_finished(x) by {
                                let k = choose|k: int|
                                    0 <= k < self.finished@.len() && (#[trigger] self.finished@[k]).id
                                        == x;
                                let k2 = if k < i { k } else { k + 1 };
                                assert(before.finished@[k2].id == x);
                            };
                            assert(!self.in_finished(id)) by {
                                if self.in_finished(id) {
                                    let k = choose|k: int|
                                        0 <= k < self.finished@.len() && (#[trigger] self.finished@[k]).id
                                            == id;
                                    let k2 = if k < i { k } else { k + 1 };
                                    assert(before.finished@[k2].id != before.finished@[i as int].id);
                                }
                            };
                            assert forall|k: int| 0 <= k < self.queued@.len() implies !self.in_finished(
                                (#[trigger] self.queued@[k]).id,
                            ) by {
                                assert(!before.in_finished(before.queued@[k].id));
                            };
                        }
                        Ok(job)
                    },
                    None => Err(QueueError::NotFound),
                }
            },
        }
    }

    /// The queued jobs, the running one first, then the queue in order.
    pub fn list_queued(&self) -> (r: Vec<Job>)
        ensures
            self.running is None ==> r@ == self.queued@,
            self.running is Some ==> r@ == seq![self.running->0] + self.queued@,
    {
        let mut r: Vec<Job> = Vec::new();
        if let Some(job) = &self.running {
            r.push(job.copy());
        }
        let ghost start = r@;
        let mut i: usize = 0;
        while i < self.queued.len()
            invariant
                i <= self.queued@.len(),
                r@ == start + self.queued@.take(i as int),
            decreases self.queued@.len() - i,
        {
            r.push(self.queued[i].copy());
            assert(self.queued@.take(i as int + 1) =~= self.queued@.take(i as int).push(
                self.queued@[i as int],
            ));
            i = i + 1;
        }
        assert(self.queued@.take(i as int) =~= self.queued@);
        assert(start + self.queued@ =~= if self.running is Some { seq![self.running->0] + self.queued@ } else { self.queued@ });
        r
    }

    /// The finished jobs, in order of completion.
    pub fn list_finished(&self) -> (r: Vec<Job>)
        ensures
            r@ == self.finished@,
    {
        copy_jobs(&self.finished)
    }


    /// Checks the invariant, for a queue read back from a snapshot.
    pub fn check_wf(&self) -> (r: bool)
        ensures
            r == self.wf(),
    {
        let mut i: usize = 0;
        while i < self.queued.len()
            invariant
                i <= self.queued@.len(),
                forall|k: int|
                    0 <= k < i ==> {
                        let j = #[trigger] self.queued@[k];
                        j.wf() && j.status == JobStatus::Queued && 1 <= j.id <= self.last_id
                    },
                forall|a: int, b: int|
                    0 <= a < b < i ==> (#[trigger] self.queued@[a]).id < (
                    #[trigger] self.queued@[b]).id,
                forall|k: int| 0 <= k < i ==> !self.in_finished((#[trigger] self.queued@[k]).id),
            decreases self.queued@.len() - i,
        {
            let job = &self.queued[i];
            if !job.check_wf() || job.status != JobStatus::Queued || job.id < 1 || job.id
                > self.last_id {
                return false;
            }
            if i > 0 && self.queued[i - 1].id >= job.id {
                return false;
            }
            if find_index(&self.finished, job.id).is_some() {
                return false;
            }
            proof {
                assert forall|a: int, b: int| 0 <= a < b < i + 1 implies (
                #[trigger] self.queued@[a]).id < (#[trigger] self.queued@[b]).id by {
                    if b == i && a < i - 1 {
                        assert(self.queued@[a].id < self.queued@[i - 1].id);
                    }
                };
            }
            i = i + 1;
        }
        let mut i: usize = 0;
        while i < self.finished.len()
            invariant
                i <= self.finished@.len(),
                forall|k: int|
                    0 <= k < i ==> {
                        let j = #[trigger] self.finished@[k];
                        j.wf() && j.status is Terminated && 1 <= j.id <= self.last_id
                    },
                forall|a: int, b: int|
                    0 <= a < i && 0 <= b < i && a != b ==> (#[trigger] self.finished@[a]).id != (
                    #[trigger] self.finished@[b]).id,
            decreases self.finished@.len() - i,
        {
            let job = &self.finished[i];
            let terminated = match job.status {
                JobStatus::Terminated(_) => true,
                _ => false,
            };
            if !job.check_wf() || !terminated || job.id < 1 || job.id > self.last_id {
                return false;
            }
            let mut k: usize = 0;
            while k < i
                invariant
                    i < self.finished@.len(),
                    k <= i,
                    job == self.finished@[i as int],
                    forall|a: int| 0 <= a < k ==> (#[trigger] self.finished@[a]).id != job.id,
                decreases i - k,
            {
                if self.finished[k].id == job.id {
                    return false;
                }
                k = k + 1;
            }
            i = i + 1;
        }
        match &self.running {
            None => true,
            Some(job) => {
                job.check_wf() && job.status == JobStatus::Running && job.id >= 1 && job.id
                    <= self.last_id && find_index(&self.queued, job.id).is_none() && find_index(
                    &self.finished,
                    job.id,
                ).is_none()
            },
        }
    }

    /// The queue that a daemon resumes with, given what its snapshot held:
    /// that queue where it holds the invariant, else an empty one.
    pub fn restore(snapshot: Option<JobQueue>) -> (r: JobQueue)
        ensures
            r.wf(),
            snapshot is Some && snapshot->0.wf() ==> r == snapshot->0,
            !(snapshot is Some && snapshot->0.wf()) ==> r.last_id == 0 && r.queued@.len() == 0
                && r.running is None && r.finished@.len() == 0,
    {
        match snapshot {
            Some(q) => {
                if q.check_wf() {
                    q
                } else {
                    JobQueue::new(0)
                }
            },
            None => JobQueue::new(0),
        }
    }

}

} // verus!

verus! {

/// The position of the job with id `id` in `v`.
fn find_index(v: &Vec<Job>, id: u64) -> (r: Option<usize>)
    ensures
        r is None <==> !has_id(v@, id),
        r matches Some(i) ==> i < v@.len() && v@[i as int].id == id,
{
    let mut i: usize = 0;
    while i < v.len()
        invariant
            i <= v@.len(),
            forall|k: int| 0 <= k < i ==> (#[trigger] v@[k]).id != id,
        decreases v@.len() - i,
    {
        if v[i].id == id {
            return Some(i);
        }
        i = i + 1;
    }
    None
}

/// An equal copy of every job in `v`.
pub fn copy_jobs(v: &Vec<Job>) -> (r: Vec<Job>)
    ensures
        r@ == v@,
{
    let mut r: Vec<Job> = Vec::new();
    let mut i: usize = 0;
    while i < v.len()
        invariant
            i <= v@.len(),
            r@ == v@.take(i as int),
        decreases v@.len() - i,
    {
        r.push(v[i].copy());
        assert(v@.take(i as int + 1) =~= v@.take(i as int).push(v@[i as int]));
        i = i + 1;
    }
    assert(v@.take(i as int) =~= v@);
    r
}

} // verus!
