//! A single-host job queue: the job model, the queue store, appkey
//! resolution, the request protocol and the decisions of the daemon that
//! serves it.

mod appkeys;
mod client;
mod daemon;
mod job;
mod laws;
mod options;
mod protocol;
mod queue;
mod state;

pub use appkeys::{
    appkey_of, arguments_of, blank, expand, is_blank, join_command, split_cmdline, split_words,
    token_end, token_end_at, words, Appkeys,
};
pub use daemon::{
    describe, error_text, illegal_state_text, reported, unresolved_text, Daemon, Dispatched,
    RunnerStep, SPAWN_FAILED_CODE,
};
pub use job::{ExitStatus, Job, JobStatus, QueueState, Timestamp, NANOS_PER_SEC};
pub use queue::{copy_jobs, has_id, JobQueue, QueueError};
pub use protocol::{Request, Response};
pub use laws::{
    lemma_finished_in_order, lemma_ids_increase, lemma_no_job_runs_when_idle, lemma_one_place,
    lemma_restart_keeps_ids,
};
pub use client::{
    cleanup_cutoff, expired, expired_ids, is_expired, jobs_reply, kill_reply, remove_reply,
    state_reply, submit_reply, total_nanos, ClientError,
};
pub use options::{
    check_transport, default_host, default_loglevel, default_state_file, either, merge_settings,
    FileSettings, OptionError, Settings, DEFAULT_PORT,
};
pub use state::State;
