use vstd::prelude::*;

use crate::appkeys::{appkey_of, arguments_of, expand, join_command, Appkeys};
use crate::job::{ExitStatus, Job, JobStatus, QueueState, Timestamp};
use crate::protocol::{Request, Response};
use crate::queue::{JobQueue, QueueError};

verus! {

/// The exit code recorded for a job whose child process could not be
/// created.
pub const SPAWN_FAILED_CODE: i32 = 127;

/// The text sent to a client for each refusal.
pub open spec fn describe(e: QueueError) -> Seq<char> {
    match e {
        QueueError::BadAppkey => "unknown appkey"@,
        QueueError::NotFound => "no job with this id"@,
        QueueError::Running => "the job is running; kill it first"@,
        QueueError::NotEligible => "the job is not running"@,
        QueueError::Busy => "a job is running already"@,
        QueueError::NotSpawned => "the job has no process yet"@,
        QueueError::IdsExhausted => "no job id is left"@,
    }
}

/// The text for a request to set the queue to a state that only the queue
/// reaches by itself.
pub open spec fn illegal_state_text() -> Seq<char> {
    "the queue state can only be set to Running or Stopping"@
}

/// The text for a command line whose appkey is not registered, recorded as
/// the error output of a job that could not start.
pub open spec fn unresolved_text() -> Seq<char> {
    "the appkey of this command line is not registered"@
}

/// The text sent to a client for a refusal.
pub fn error_text(e: QueueError) -> (r: String)
    ensures
        r@ == describe(e),
{
    match e {
        QueueError::BadAppkey => String::from_str("unknown appkey"),
        QueueError::NotFound => String::from_str("no job with this id"),
        QueueError::Running => String::from_str("the job is running; kill it first"),
        QueueError::NotEligible => String::from_str("the job is not running"),
        QueueError::Busy => String::from_str("a job is running already"),
        QueueError::NotSpawned => String::from_str("the job has no process yet"),
        QueueError::IdsExhausted => String::from_str("no job id is left"),
    }
}

/// `r` is an error answer with the text `text`.
pub open spec fn is_error(r: Response, text: Seq<char>) -> bool {
    r is Error && r->Error_0@ == text
}

/// `r` is a list of exactly the jobs `jobs`.
pub open spec fn jobs_are(r: Response, jobs: Seq<Job>) -> bool {
    r is GetJobs && r->GetJobs_0@ == jobs
}

/// The queue state that clients see, from the daemon's mode and whether jobs
/// are queued or running.
pub open spec fn reported(mode: QueueState, has_queued: bool, has_running: bool) -> QueueState {
    match mode {
        QueueState::Running => if has_running || has_queued {
            QueueState::Running
        } else {
            QueueState::Empty
        },
        QueueState::Stopping => if has_running {
            QueueState::Stopping
        } else {
            QueueState::Stopped
        },
        _ => QueueState::Stopped,
    }
}

/// What the runner is to do next.
#[derive(Debug)]
pub enum RunnerStep {
    /// Nothing may start now: wait to be woken.
    Wait,
    /// Spawn the child for job `id`: the resolved executable and its arguments.
    Start { id: u64, path: String, args: String },
    /// Job `id` could not start, as its appkey is not registered; it has been
    /// moved to the finished jobs. Look again.
    Skipped { id: u64 },
}

/// The result of handling one request.
#[derive(Debug)]
pub struct Dispatched {
    /// The answer to the client.
    pub response: Response,
    /// The process to send SIGTERM before answering, for a kill.
    pub kill_pid: Option<u32>,
    /// The queue changed, so the snapshot is to be written.
    pub changed: bool,
    /// The runner may have work now, so it is to be woken.
    pub wake: bool,
}

/// The state that the daemon's threads share under one lock: the jobs and the
/// mode the operator set.
#[derive(Debug)]
pub struct Daemon {
    pub queue: JobQueue,
    /// `Running`, `Stopping` or `Stopped`.
    pub mode: QueueState,
}

impl Daemon {
    /// The queue holds its invariant, the mode is one the daemon can be in,
    /// and no job runs once the queue is stopped.
    pub open spec fn wf(&self) -> bool {
        &&& self.queue.wf()
        &&& self.mode != QueueState::Empty
        &&& self.mode == QueueState::Stopped ==> self.queue.running is None
    }

    /// The queue state that clients see.
    pub open spec fn state(&self) -> QueueState {
        reported(self.mode, self.queue.queued@.len() > 0, self.queue.running is Some)
    }

    /// A daemon that resumes `queue` and is ready to run its jobs.
    pub fn new(queue: JobQueue) -> (r: Daemon)
        requires
            queue.wf(),
        ensures
            r.wf(),
            r.queue == queue,
            r.mode == QueueState::Running,
    {
        Daemon { queue, mode: QueueState::Running }
    }

    /// The queue state that clients see.
    pub fn queue_state(&self) -> (r: QueueState)
        ensures
            r == self.state(),
    {
        let has_queued = self.queue.queued.len() > 0;
        let has_running = self.queue.running.is_some();
        match self.mode {
            QueueState::Running => if has_running || has_queued {
                QueueState::Running
            } else {
                QueueState::Empty
            },
            QueueState::Stopping => if has_running {
                QueueState::Stopping
            } else {
                QueueState::Stopped
            },
            _ => QueueState::Stopped,
        }
    }

    /// Sets the mode as an operator asks. `Running` lets queued jobs start;
    /// `Stopping` lets the running job finish and starts no other, and stops
    /// the queue at once where none runs. `Stopped` and `Empty` cannot be set.
    /// Returns the queue state that clients see afterwards.
    pub fn set_queue_state(&mut self, s: QueueState) -> (r: Result<QueueState, ()>)
        requires
            old(self).wf(),
        ensures
            final(self).wf(),
            final(self).queue == old(self).queue,
            (s == QueueState::Stopped || s == QueueState::Empty) <==> r is Err,
            r is Err ==> final(self).mode == old(self).mode,
            s == QueueState::Running ==> final(self).mode == QueueState::Running,
            s == QueueState::Stopping && old(self).queue.running is Some ==> final(self).mode
                == QueueState::Stopping,
            s == QueueState::Stopping && old(self).queue.running is None ==> final(self).mode
                == QueueState::Stopped,
            r matches Ok(st) ==> st == final(self).state(),
    {
        match s {
            QueueState::Running => {
                self.mode = QueueState::Running;
            },
            QueueState::Stopping => {
                if self.queue.running.is_some() {
                    self.mode = QueueState::Stopping;
                } else {
                    self.mode = QueueState::Stopped;
                }
            },
            _ => {
                return Err(());
            },
        }
        Ok(self.queue_state())
    }

    /// After a job ended: a stopping queue with nothing running is stopped.
    fn settle(&mut self)
        requires
            old(self).queue.wf(),
            old(self).mode != QueueState::Empty,
            old(self).mode == QueueState::Stopped ==> old(self).queue.running is None,
        ensures
            final(self).wf(),
            final(self).queue == old(self).queue,
            old(self).mode == QueueState::Stopping && old(self).queue.running is None ==> final(self).mode == QueueState::Stopped,
            !(old(self).mode == QueueState::Stopping && old(self).queue.running is None) ==> final(self).mode == old(self).mode,
    {
        if self.mode == QueueState::Stopping && self.queue.running.is_none() {
            self.mode = QueueState::Stopped;
        }
    }

    /// The runner's next step. Where the mode is `Running`, no job runs and
    /// one is queued, the head of the queue starts: it moves to the running
    /// slot with its appkey resolved, or, where the appkey is not registered,
    /// straight to the finished jobs as a job that could not be spawned.
    pub fn next_step(&mut self, appkeys: &Appkeys, now: Timestamp) -> (r: RunnerStep)
        requires
            old(self).wf(),
            appkeys.wf(),
            now.wf(),
        ensures
            final(self).wf(),
            final(self).mode == old(self).mode,
            final(self).queue.last_id == old(self).queue.last_id,
            !(old(self).mode == QueueState::Running && old(self).queue.running is None && old(self).queue.queued@.len() > 0) ==> r is Wait && *final(self) == *old(self),
            old(self).mode == QueueState::Running && old(self).queue.running is None && old(self).queue.queued@.len() > 0 ==> {
                let h = old(self).queue.queued@[0];
                let resolved = appkeys.resolve_spec(h.cmdline@);
                &&& final(self).queue.queued@ == old(self).queue.queued@.skip(1)
                &&& resolved is Some ==> {
                    &&& r matches RunnerStep::Start { id, path, args } && id == h.id
                        && path@ == appkeys.path_of(appkey_of(h.cmdline@)) && args@
                        == arguments_of(h.cmdline@) && expand(path@, args@) == resolved->0
                    &&& final(self).queue.in_running(h.id)
                    &&& final(self).queue.running->0.expanded_cmdline matches Some(x) && x@
                        == resolved->0
                    &&& final(self).queue.finished@ == old(self).queue.finished@
                }
                &&& resolved is None ==> {
                    &&& r matches RunnerStep::Skipped { id } && id == h.id
                    &&& final(self).queue.running is None
                    &&& final(self).queue.finished@.len() == old(self).queue.finished@.len() + 1
                    &&& final(self).queue.finished@.drop_last() == old(self).queue.finished@
                    &&& final(self).queue.finished@.last().id == h.id
                    &&& final(self).queue.finished@.last().status == JobStatus::Terminated(
                        ExitStatus::Code(SPAWN_FAILED_CODE),
                    )
                    &&& final(self).queue.finished@.last().stderr@ == unresolved_text()
                }
            },
    {
        if self.mode != QueueState::Running || self.queue.running.is_some()
            || self.queue.queued.len() == 0 {
            return RunnerStep::Wait;
        }
        let id = self.queue.queued[0].id;
        let resolved = appkeys.resolve_parts(self.queue.queued[0].cmdline.as_str());
        match resolved {
            Some((path, args)) => {
                let line = join_command(path.clone(), &args);
                let r = self.queue.mark_running(id, line, now);
                assert(r is Ok);
                RunnerStep::Start { id, path, args }
            },
            None => {
                let line = self.queue.queued[0].cmdline.clone();
                let r = self.queue.mark_running(id, line, now);
                assert(r is Ok);
                let r = self.queue.mark_finished(
                    id,
                    ExitStatus::Code(SPAWN_FAILED_CODE),
                    String::new(),
                    String::from_str("the appkey of this command line is not registered"),
                    now,
                );
                assert(r is Ok);
                RunnerStep::Skipped { id }
            },
        }
    }

    /// Records the child process spawned for the running job `id`.
    pub fn spawned(&mut self, id: u64, pid: u32) -> (r: Result<(), QueueError>)
        requires
            old(self).wf(),
        ensures
            final(self).wf(),
            final(self).mode == old(self).mode,
            r is Ok <==> old(self).queue.in_running(id),
            r is Err ==> *final(self) == *old(self),
            r is Ok ==> final(self).queue.running == Some(
                Job { pid: Some(pid), ..old(self).queue.running->0 },
            ) && final(self).queue.queued@ == old(self).queue.queued@
                && final(self).queue.finished@ == old(self).queue.finished@
                && final(self).queue.last_id == old(self).queue.last_id,
    {
        self.queue.set_pid(id, pid)
    }

    /// Records the end of the running job `id`: its exit status and output.
    /// A stopping queue is stopped afterwards.
    pub fn finish(
        &mut self,
        id: u64,
        exit: ExitStatus,
        stdout: String,
        stderr: String,
        now: Timestamp,
    ) -> (r: Result<(), QueueError>)
        requires
            old(self).wf(),
            now.wf(),
        ensures
            final(self).wf(),
            r is Ok <==> old(self).queue.in_running(id),
            r is Err ==> *final(self) == *old(self),
            r is Ok ==> {
                let o = old(self).queue.running->0;
                &&& final(self).queue.running is None
                &&& final(self).queue.queued@ == old(self).queue.queued@
                &&& final(self).queue.last_id == old(self).queue.last_id
                &&& final(self).queue.finished@ == old(self).queue.finished@.push(
                    Job {
                        status: JobStatus::Terminated(exit),
                        stdout: stdout,
                        stderr: stderr,
                        finished: Some(JobQueue::finish_time(o.started->0, now)),
                        pid: None,
                        ..o
                    },
                )
                &&& old(self).mode == QueueState::Stopping ==> final(self).mode
                    == QueueState::Stopped
                &&& old(self).mode != QueueState::Stopping ==> final(self).mode == old(self).mode
            },
    {
        let ghost before = self.queue.finished@;
        let r = self.queue.mark_finished(id, exit, stdout, stderr, now);
        if r.is_ok() {
            assert(self.queue.finished@ =~= before.push(self.queue.finished@.last()));
            self.settle();
        }
        r
    }

    /// Records that the child for the running job `id` could not be created:
    /// the job ends with exit code [`SPAWN_FAILED_CODE`] and the reason as its
    /// error output.
    pub fn spawn_failed(&mut self, id: u64, reason: String, now: Timestamp) -> (r: Result<
        (),
        QueueError,
    >)
        requires
            old(self).wf(),
            now.wf(),
        ensures
            final(self).wf(),
            r is Ok <==> old(self).queue.in_running(id),
            r is Err ==> *final(self) == *old(self),
            r is Ok ==> {
                &&& final(self).queue.running is None
                &&& final(self).queue.finished@.len() == old(self).queue.finished@.len() + 1
                &&& final(self).queue.finished@.last().id == id
                &&& final(self).queue.finished@.last().status == JobStatus::Terminated(
                    ExitStatus::Code(SPAWN_FAILED_CODE),
                )
                &&& final(self).queue.finished@.last().stderr == reason
            },
    {
        self.finish(id, ExitStatus::Code(SPAWN_FAILED_CODE), String::new(), reason, now)
    }

    /// Handles one client request under the lock, at time `now`. A kill is
    /// answered `Done` here; the caller sends SIGTERM to `kill_pid` and
    /// answers with an error instead where that fails.
    pub fn dispatch(&mut self, req: Request, appkeys: &Appkeys, now: Timestamp) -> (r: Dispatched)
        requires
            old(self).wf(),
            appkeys.wf(),
            now.wf(),
        ensures
            final(self).wf(),
            r.kill_pid is Some ==> req is KillJob,
            !r.changed ==> *final(self) == *old(self),
            match req {
                Request::SubmitJob(cmdline) => {
                    let ok = appkeys.resolve_spec(cmdline@) is Some && old(self).queue.last_id
                        < u64::MAX;
                    let id = (old(self).queue.last_id + 1) as u64;
                    &&& final(self).mode == old(self).mode
                    &&& ok ==> r.response == Response::SubmitJob(id) && r.changed && r.wake
                        && JobQueue::submitted(old(self).queue, final(self).queue, cmdline@, now, id)
                    &&& appkeys.resolve_spec(cmdline@) is None ==> is_error(
                        r.response,
                        describe(QueueError::BadAppkey),
                    )
                    &&& appkeys.resolve_spec(cmdline@) is Some && old(self).queue.last_id
                        == u64::MAX ==> is_error(r.response, describe(QueueError::IdsExhausted))
                    &&& !ok ==> r.response is Error && !r.changed
                },
                Request::RemoveJob(id) => {
                    let q = old(self).queue;
                    &&& final(self).mode == old(self).mode
                    &&& q.in_running(id) ==> is_error(r.response, describe(QueueError::Running))
                    &&& !q.in_running(id) && !q.in_queued(id) && !q.in_finished(id) ==> is_error(
                        r.response,
                        describe(QueueError::NotFound),
                    )
                    &&& r.response is Error ==> !r.changed
                    &&& q.in_queued(id) || q.in_finished(id) ==> {
                        &&& r.response is GetJob
                        &&& r.response->GetJob_0.id == id
                        &&& r.changed
                        &&& !final(self).queue.in_queued(id)
                        &&& !final(self).queue.in_finished(id)
                        &&& final(self).queue.running == q.running
                        &&& final(self).queue.last_id == q.last_id
                    }
                },
                Request::KillJob(id) => {
                    let q = old(self).queue;
                    &&& !r.changed
                    &&& q.in_running(id) && q.running->0.pid is Some ==> r.response is Done
                        && r.kill_pid == q.running->0.pid
                    &&& !q.in_running(id) ==> is_error(r.response, describe(QueueError::NotEligible))
                    &&& q.in_running(id) && q.running->0.pid is None ==> is_error(
                        r.response,
                        describe(QueueError::NotSpawned),
                    )
                    &&& r.response is Error ==> r.kill_pid is None
                },
                Request::GetQueuedJobs => {
                    let q = old(self).queue;
                    &&& !r.changed
                    &&& q.running is None ==> jobs_are(r.response, q.queued@)
                    &&& q.running is Some ==> jobs_are(r.response, seq![q.running->0] + q.queued@)
                },
                Request::GetFinishedJobs => {
                    &&& !r.changed
                    &&& jobs_are(r.response, old(self).queue.finished@)
                },
                Request::SetQueueState(s) => {
                    &&& final(self).queue == old(self).queue
                    &&& s == QueueState::Stopped || s == QueueState::Empty ==> is_error(
                        r.response,
                        illegal_state_text(),
                    ) && !r.changed
                    &&& s == QueueState::Running ==> final(self).mode == QueueState::Running
                        && r.response == Response::QueueState(final(self).state()) && r.wake
                    &&& s == QueueState::Stopping ==> r.response == Response::QueueState(
                        final(self).state(),
                    ) && (old(self).queue.running is Some ==> final(self).mode
                        == QueueState::Stopping) && (old(self).queue.running is None ==> final(self).mode == QueueState::Stopped)
                },
                Request::GetQueueState => {
                    &&& !r.changed
                    &&& r.response == Response::QueueState(old(self).state())
                },
            },
    {
        match req {
            Request::SubmitJob(cmdline) => match self.queue.submit(cmdline, now, appkeys) {
                Ok(id) => Dispatched {
                    response: Response::SubmitJob(id),
                    kill_pid: None,
                    changed: true,
                    wake: true,
                },
                Err(e) => Dispatched {
                    response: Response::Error(error_text(e)),
                    kill_pid: None,
                    changed: false,
                    wake: false,
                },
            },
            Request::RemoveJob(id) => match self.queue.remove(id) {
                Ok(job) => Dispatched {
                    response: Response::GetJob(job),
                    kill_pid: None,
                    changed: true,
                    wake: false,
                },
                Err(e) => Dispatched {
                    response: Response::Error(error_text(e)),
                    kill_pid: None,
                    changed: false,
                    wake: false,
                },
            },
            Request::KillJob(id) => match self.queue.kill(id) {
                Ok(pid) => Dispatched {
                    response: Response::Done,
                    kill_pid: Some(pid),
                    changed: false,
                    wake: false,
                },
                Err(e) => Dispatched {
                    response: Response::Error(error_text(e)),
                    kill_pid: None,
                    changed: false,
                    wake: false,
                },
            },
            Request::GetQueuedJobs => Dispatched {
                response: Response::GetJobs(self.queue.list_queued()),
                kill_pid: None,
                changed: false,
                wake: false,
            },
            Request::GetFinishedJobs => Dispatched {
                response: Response::GetJobs(self.queue.list_finished()),
                kill_pid: None,
                changed: false,
                wake: false,
            },
            Request::SetQueueState(s) => match self.set_queue_state(s) {
                Ok(st) => Dispatched {
                    response: Response::QueueState(st),
                    kill_pid: None,
                    changed: true,
                    wake: true,
                },
                Err(()) => Dispatched {
                    response: Response::Error(
                        String::from_str("the queue state can only be set to Running or Stopping"),
                    ),
                    kill_pid: None,
                    changed: false,
                    wake: false,
                },
            },
            Request::GetQueueState => Dispatched {
                response: Response::QueueState(self.queue_state()),
                kill_pid: None,
                changed: false,
                wake: false,
            },
        }
    }

}

} // verus!
