use vstd::prelude::*;

verus! {

/// Number of nanoseconds in one second.
pub const NANOS_PER_SEC: u32 = 1_000_000_000;

/// A point in wall-clock time, as seconds and nanoseconds since the Unix epoch.
#[derive(Clone, Copy, Debug, PartialEq, Eq, Structural)]
pub struct Timestamp {
    pub secs: u64,
    pub nanos: u32,
}

impl Timestamp {
    pub open spec fn wf(self) -> bool {
        self.nanos < NANOS_PER_SEC
    }

    /// The instant as a number of nanoseconds since the epoch.
    pub open spec fn as_nanos(self) -> int {
        self.secs as int * NANOS_PER_SEC as int + self.nanos as int
    }

    /// `self` is not later than `other`.
    pub fn le(&self, other: &Timestamp) -> (r: bool)
        requires
            self.wf(),
            other.wf(),
        ensures
            r == (self.as_nanos() <= other.as_nanos()),
    {
        self.secs < other.secs || (self.secs == other.secs && self.nanos <= other.nanos)
    }

    /// The later of two instants.
    pub fn latest(a: Timestamp, b: Timestamp) -> (r: Timestamp)
        requires
            a.wf(),
            b.wf(),
        ensures
            r.wf(),
            r == a || r == b,
            r.as_nanos() >= a.as_nanos(),
            r.as_nanos() >= b.as_nanos(),
    {
        if a.le(&b) {
            b
        } else {
            a
        }
    }

    /// The instant `secs` seconds and `nanos` nanoseconds before `self`,
    /// or the epoch where that would lie before it.
    pub fn saturating_sub(&self, secs: u64, nanos: u32) -> (r: Timestamp)
        requires
            self.wf(),
            nanos < NANOS_PER_SEC,
        ensures
            r.wf(),
            self.as_nanos() >= secs as int * NANOS_PER_SEC as int + nanos as int
                ==> r.as_nanos() == self.as_nanos() - (secs as int * NANOS_PER_SEC as int
                + nanos as int),
            self.as_nanos() < secs as int * NANOS_PER_SEC as int + nanos as int
                ==> r.as_nanos() == 0,
    {
        if self.secs < secs || (self.secs == secs && self.nanos < nanos) {
            Timestamp { secs: 0, nanos: 0 }
        } else if self.nanos >= nanos {
            Timestamp { secs: self.secs - secs, nanos: self.nanos - nanos }
        } else {
            Timestamp { secs: self.secs - secs - 1, nanos: self.nanos + NANOS_PER_SEC - nanos }
        }
    }
}

/// How a child process ended: with an exit code, or through a signal.
#[derive(Clone, Copy, Debug, PartialEq, Eq, Structural)]
pub enum ExitStatus {
    Code(i32),
    Signal(i32),
}

/// Where a job is in its life.
#[derive(Clone, Copy, Debug, PartialEq, Eq, Structural)]
pub enum JobStatus {
    Queued,
    Running,
    Terminated(ExitStatus),
}

/// The administrative mode of the queue, as clients see and request it.
#[derive(Clone, Copy, Debug, PartialEq, Eq, Structural)]
pub enum QueueState {
    Empty,
    Running,
    Stopping,
    Stopped,
}

/// One submitted command line and what became of it.
#[derive(Debug)]
pub struct Job {
    pub id: u64,
    pub cmdline: String,
    pub expanded_cmdline: Option<String>,
    pub status: JobStatus,
    pub stdout: String,
    pub stderr: String,
    pub submitted: Timestamp,
    pub started: Option<Timestamp>,
    pub finished: Option<Timestamp>,
    pub pid: Option<u32>,
}

impl Job {
    /// The timestamps agree with the status: a job has started unless it is
    /// queued, has finished exactly when it terminated, and its recorded
    /// instants never go backwards.
    pub open spec fn wf(&self) -> bool {
        &&& self.submitted.wf()
        &&& (self.started is Some <==> self.status != JobStatus::Queued)
        &&& (self.finished is Some <==> self.status is Terminated)
        &&& (self.started matches Some(s) ==> s.wf() && self.submitted.as_nanos()
            <= s.as_nanos())
        &&& (self.finished matches Some(f) ==> (f.wf() && (self.started matches Some(s)
            && s.as_nanos() <= f.as_nanos())))
    }

    /// A queued job, fresh from submission.
    pub open spec fn is_fresh(&self, id: u64, cmdline: Seq<char>, now: Timestamp) -> bool {
        &&& self.id == id
        &&& self.cmdline@ == cmdline
        &&& self.expanded_cmdline is None
        &&& self.status == JobStatus::Queued
        &&& self.stdout@.len() == 0
        &&& self.stderr@.len() == 0
        &&& self.submitted == now
        &&& self.started is None
        &&& self.finished is None
        &&& self.pid is None
    }

    /// An equal copy of the job.
    pub fn copy(&self) -> (r: Job)
        ensures
            r == *self,
    {
        let expanded_cmdline = match &self.expanded_cmdline {
            None => None,
            Some(s) => Some(s.clone()),
        };
        Job {
            id: self.id,
            cmdline: self.cmdline.clone(),
            expanded_cmdline,
            status: self.status,
            stdout: self.stdout.clone(),
            stderr: self.stderr.clone(),
            submitted: self.submitted,
            started: self.started,
            finished: self.finished,
            pid: self.pid,
        }
    }

    /// Checks the well-formedness of a job read back from elsewhere.
    pub fn check_wf(&self) -> (r: bool)
        ensures
            r == self.wf(),
    {
        if self.submitted.nanos >= NANOS_PER_SEC {
            return false;
        }
        let queued = match self.status {
            JobStatus::Queued => true,
            _ => false,
        };
        let terminated = match self.status {
            JobStatus::Terminated(_) => true,
            _ => false,
        };
        match self.started {
            None => {
                if !queued {
                    return false;
                }
            },
            Some(s) => {
                if queued || s.nanos >= NANOS_PER_SEC || !self.submitted.le(&s) {
                    return false;
                }
            },
        }
        match self.finished {
            None => !terminated,
            Some(f) => {
                match self.started {
                    None => false,
                    Some(s) => terminated && f.nanos < NANOS_PER_SEC && s.le(&f),
                }
            },
        }
    }
}

} // verus!
