use qmanager::{
    Appkeys, Daemon, ExitStatus, Job, JobQueue, JobStatus, QueueError, QueueState, Request,
    Response, RunnerStep, Timestamp, SPAWN_FAILED_CODE,
};

fn t(secs: u64) -> Timestamp {
    Timestamp { secs, nanos: 0 }
}

fn registry() -> Appkeys {
    let mut a = Appkeys::new();
    a.insert("echo".to_string(), "/bin/echo".to_string());
    a.insert("sleep".to_string(), "/bin/sleep".to_string());
    a
}

fn fresh() -> Daemon {
    Daemon::new(JobQueue::new(0))
}

fn submit(d: &mut Daemon, keys: &Appkeys, cmd: &str, now: u64) -> Response {
    d.dispatch(Request::SubmitJob(cmd.to_string()), keys, t(now)).response
}

fn start(d: &mut Daemon, keys: &Appkeys, now: u64) -> u64 {
    match d.next_step(keys, t(now)) {
        RunnerStep::Start { id, .. } => id,
        other => panic!("expected a start, got {:?}", other),
    }
}

fn finished(d: &mut Daemon, keys: &Appkeys) -> Vec<Job> {
    match d.dispatch(Request::GetFinishedJobs, keys, t(0)).response {
        Response::GetJobs(v) => v,
        other => panic!("expected jobs, got {:?}", other),
    }
}

fn queued(d: &mut Daemon, keys: &Appkeys) -> Vec<Job> {
    match d.dispatch(Request::GetQueuedJobs, keys, t(0)).response {
        Response::GetJobs(v) => v,
        other => panic!("expected jobs, got {:?}", other),
    }
}

#[test]
fn submit_run_inspect() {
    let keys = registry();
    let mut d = fresh();
    assert!(matches!(submit(&mut d, &keys, "echo hello", 10), Response::SubmitJob(1)));
    match d.next_step(&keys, t(11)) {
        RunnerStep::Start { id, path, args } => {
            assert_eq!(id, 1);
            assert_eq!(path, "/bin/echo");
            assert_eq!(args, "hello");
        },
        other => panic!("expected a start, got {:?}", other),
    }
    assert_eq!(d.queue.running.as_ref().unwrap().expanded_cmdline.as_deref(), Some("/bin/echo hello"));
    assert!(d.spawned(1, 4242).is_ok());
    assert!(d
        .finish(1, ExitStatus::Code(0), "hello\n".to_string(), String::new(), t(12))
        .is_ok());
    let jobs = finished(&mut d, &keys);
    assert_eq!(jobs.len(), 1);
    assert_eq!(jobs[0].id, 1);
    assert_eq!(jobs[0].status, JobStatus::Terminated(ExitStatus::Code(0)));
    assert_eq!(jobs[0].stdout, "hello\n");
    assert_eq!(jobs[0].pid, None);
    assert_eq!(jobs[0].started, Some(t(11)));
    assert_eq!(jobs[0].finished, Some(t(12)));
    assert_eq!(d.queue_state(), QueueState::Empty);
}

#[test]
fn bad_appkey_is_refused() {
    let keys = registry();
    let mut d = fresh();
    match submit(&mut d, &keys, "nosuch foo", 1) {
        Response::Error(m) => assert!(m.contains("appkey")),
        other => panic!("expected an error, got {:?}", other),
    }
    assert!(queued(&mut d, &keys).is_empty());
    assert_eq!(d.queue.last_id, 0);
}

#[test]
fn stop_and_start() {
    let keys = registry();
    let mut d = fresh();
    submit(&mut d, &keys, "sleep 60", 1);
    assert_eq!(start(&mut d, &keys, 2), 1);
    let r = d.dispatch(Request::SetQueueState(QueueState::Stopping), &keys, t(3));
    assert!(matches!(r.response, Response::QueueState(QueueState::Stopping)));
    assert!(matches!(submit(&mut d, &keys, "echo x", 4), Response::SubmitJob(2)));
    d.finish(1, ExitStatus::Code(0), String::new(), String::new(), t(5)).unwrap();
    assert!(matches!(d.next_step(&keys, t(6)), RunnerStep::Wait));
    let r = d.dispatch(Request::GetQueueState, &keys, t(6));
    assert!(matches!(r.response, Response::QueueState(QueueState::Stopped)));
    let r = d.dispatch(Request::SetQueueState(QueueState::Running), &keys, t(7));
    assert!(matches!(r.response, Response::QueueState(QueueState::Running)));
    assert_eq!(start(&mut d, &keys, 8), 2);
    d.finish(2, ExitStatus::Code(0), "x\n".to_string(), String::new(), t(9)).unwrap();
    assert_eq!(finished(&mut d, &keys).len(), 2);
}

#[test]
fn stopping_an_idle_queue_stops_it() {
    let keys = registry();
    let mut d = fresh();
    let r = d.dispatch(Request::SetQueueState(QueueState::Stopping), &keys, t(1));
    assert!(matches!(r.response, Response::QueueState(QueueState::Stopped)));
    assert_eq!(d.mode, QueueState::Stopped);
}

#[test]
fn illegal_queue_states_are_refused() {
    let keys = registry();
    let mut d = fresh();
    for s in [QueueState::Stopped, QueueState::Empty] {
        let r = d.dispatch(Request::SetQueueState(s), &keys, t(1));
        assert!(matches!(r.response, Response::Error(_)));
        assert!(!r.changed);
    }
    assert_eq!(d.mode, QueueState::Running);
}

#[test]
fn kill_running_job() {
    let keys = registry();
    let mut d = fresh();
    submit(&mut d, &keys, "sleep 60", 1);
    let id = start(&mut d, &keys, 2);
    let early = d.dispatch(Request::KillJob(id), &keys, t(2));
    assert!(matches!(early.response, Response::Error(_)));
    assert_eq!(early.kill_pid, None);
    d.spawned(id, 777).unwrap();
    let qs = queued(&mut d, &keys);
    assert_eq!(qs.len(), 1);
    assert_eq!(qs[0].status, JobStatus::Running);
    let r = d.dispatch(Request::KillJob(id), &keys, t(3));
    assert!(matches!(r.response, Response::Done));
    assert_eq!(r.kill_pid, Some(777));
    d.finish(id, ExitStatus::Signal(15), String::new(), String::new(), t(4)).unwrap();
    let jobs = finished(&mut d, &keys);
    assert_eq!(jobs[0].status, JobStatus::Terminated(ExitStatus::Signal(15)));
}

#[test]
fn kill_of_a_job_that_does_not_run() {
    let keys = registry();
    let mut d = fresh();
    submit(&mut d, &keys, "echo a", 1);
    let r = d.dispatch(Request::KillJob(1), &keys, t(2));
    assert!(matches!(r.response, Response::Error(_)));
    assert_eq!(r.kill_pid, None);
}

#[test]
fn remove_rules() {
    let keys = registry();
    let mut d = fresh();
    submit(&mut d, &keys, "sleep 60", 1);
    submit(&mut d, &keys, "echo queued", 2);
    let running = start(&mut d, &keys, 3);
    let r = d.dispatch(Request::RemoveJob(2), &keys, t(4));
    match r.response {
        Response::GetJob(j) => {
            assert_eq!(j.id, 2);
            assert_eq!(j.cmdline, "echo queued");
        },
        other => panic!("expected the job, got {:?}", other),
    }
    assert!(r.changed);
    let r = d.dispatch(Request::RemoveJob(running), &keys, t(4));
    assert!(matches!(r.response, Response::Error(_)));
    let r = d.dispatch(Request::RemoveJob(99), &keys, t(4));
    assert!(matches!(r.response, Response::Error(_)));
    assert_eq!(d.queue.remove(99).unwrap_err(), QueueError::NotFound);
    assert_eq!(d.queue.remove(running).unwrap_err(), QueueError::Running);
    d.finish(running, ExitStatus::Code(0), String::new(), String::new(), t(5)).unwrap();
    let r = d.dispatch(Request::RemoveJob(running), &keys, t(6));
    assert!(matches!(r.response, Response::GetJob(_)));
    assert!(finished(&mut d, &keys).is_empty());
}

#[test]
fn queue_is_fifo() {
    let keys = registry();
    let mut d = fresh();
    for i in 0..3u64 {
        assert!(matches!(submit(&mut d, &keys, "echo n", i), Response::SubmitJob(n) if n == i + 1));
    }
    for i in 1..=3u64 {
        assert_eq!(start(&mut d, &keys, 10 + i), i);
        d.finish(i, ExitStatus::Code(0), String::new(), String::new(), t(20 + i)).unwrap();
    }
    let ids: Vec<u64> = finished(&mut d, &keys).iter().map(|j| j.id).collect();
    assert_eq!(ids, vec![1, 2, 3]);
}

#[test]
fn ids_are_never_reused() {
    let keys = registry();
    let mut d = fresh();
    submit(&mut d, &keys, "echo a", 1);
    d.dispatch(Request::RemoveJob(1), &keys, t(2));
    assert!(matches!(submit(&mut d, &keys, "echo b", 3), Response::SubmitJob(2)));
}

#[test]
fn ids_run_out() {
    let keys = registry();
    let mut q = JobQueue::new(u64::MAX);
    assert_eq!(q.submit("echo a".to_string(), t(1), &keys), Err(QueueError::IdsExhausted));
    assert_eq!(q.submit("nosuch".to_string(), t(1), &keys), Err(QueueError::BadAppkey));
}

#[test]
fn unregistered_head_is_skipped() {
    let keys = registry();
    let mut q = JobQueue::new(0);
    q.submit("echo a".to_string(), t(1), &keys).unwrap();
    let mut d = Daemon::new(q);
    let empty = Appkeys::new();
    match d.next_step(&empty, t(2)) {
        RunnerStep::Skipped { id } => assert_eq!(id, 1),
        other => panic!("expected a skip, got {:?}", other),
    }
    let j = &d.queue.finished[0];
    assert_eq!(j.status, JobStatus::Terminated(ExitStatus::Code(SPAWN_FAILED_CODE)));
    assert!(j.stderr.contains("appkey"));
}

#[test]
fn spawn_failure_is_recorded() {
    let keys = registry();
    let mut d = fresh();
    submit(&mut d, &keys, "echo a", 1);
    let id = start(&mut d, &keys, 2);
    d.spawn_failed(id, "No such file or directory".to_string(), t(3)).unwrap();
    let j = &d.queue.finished[0];
    assert_eq!(j.status, JobStatus::Terminated(ExitStatus::Code(SPAWN_FAILED_CODE)));
    assert_eq!(j.stderr, "No such file or directory");
    assert!(d.queue.running.is_none());
}

#[test]
fn clock_going_back_keeps_times_ordered() {
    let keys = registry();
    let mut d = fresh();
    submit(&mut d, &keys, "echo a", 100);
    start(&mut d, &keys, 50);
    d.finish(1, ExitStatus::Code(0), String::new(), String::new(), t(10)).unwrap();
    let j = &d.queue.finished[0];
    assert_eq!(j.submitted, t(100));
    assert_eq!(j.started, Some(t(100)));
    assert_eq!(j.finished, Some(t(100)));
}

#[test]
fn restart_restores_snapshot() {
    let keys = registry();
    let mut d = fresh();
    submit(&mut d, &keys, "echo a", 1);
    start(&mut d, &keys, 2);
    d.finish(1, ExitStatus::Code(0), "a\n".to_string(), String::new(), t(3)).unwrap();
    submit(&mut d, &keys, "echo b", 4);
    let restored = JobQueue::restore(Some(d.queue));
    assert_eq!(restored.last_id, 2);
    assert_eq!(restored.finished.len(), 1);
    assert_eq!(restored.queued.len(), 1);
    let mut d = Daemon::new(restored);
    assert!(matches!(submit(&mut d, &keys, "echo c", 5), Response::SubmitJob(3)));
}

#[test]
fn broken_snapshot_restores_empty() {
    let keys = registry();
    let mut q = JobQueue::new(0);
    q.submit("echo a".to_string(), t(1), &keys).unwrap();
    q.last_id = 0;
    assert!(!q.check_wf());
    let r = JobQueue::restore(Some(q));
    assert_eq!(r.last_id, 0);
    assert!(r.queued.is_empty());
    let r = JobQueue::restore(None);
    assert_eq!(r.last_id, 0);
}

#[test]
fn duplicate_ids_fail_the_check() {
    let keys = registry();
    let mut q = JobQueue::new(0);
    q.submit("echo a".to_string(), t(1), &keys).unwrap();
    assert!(q.check_wf());
    let copy = q.queued[0].copy();
    q.queued.push(copy);
    assert!(!q.check_wf());
}

#[test]
fn mark_running_needs_the_head() {
    let keys = registry();
    let mut q = JobQueue::new(0);
    q.submit("echo a".to_string(), t(1), &keys).unwrap();
    q.submit("echo b".to_string(), t(1), &keys).unwrap();
    assert_eq!(q.head(), Some(1));
    assert_eq!(q.mark_running(2, "x".to_string(), t(2)), Err(QueueError::NotEligible));
    assert_eq!(q.mark_running(1, "x".to_string(), t(2)), Ok(()));
    assert_eq!(q.mark_running(2, "y".to_string(), t(2)), Err(QueueError::Busy));
    assert_eq!(q.mark_finished(2, ExitStatus::Code(0), String::new(), String::new(), t(3)), Err(QueueError::NotEligible));
    assert_eq!(q.kill(1), Err(QueueError::NotSpawned));
    q.set_pid(1, 9).unwrap();
    assert_eq!(q.kill(1), Ok(9));
    assert_eq!(q.kill(2), Err(QueueError::NotEligible));
}
