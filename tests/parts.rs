use qmanager::{
    check_transport, cleanup_cutoff, error_text, expired_ids, join_command, jobs_reply, kill_reply,
    merge_settings, remove_reply, split_cmdline, split_words, state_reply, submit_reply,
    total_nanos, Appkeys, ClientError, ExitStatus, FileSettings, Job, JobStatus, OptionError,
    QueueError, QueueState, Response, Settings, State, Timestamp, DEFAULT_PORT,
};

fn finished_job(id: u64, secs: u64) -> Job {
    Job {
        id,
        cmdline: "echo x".to_string(),
        expanded_cmdline: Some("/bin/echo x".to_string()),
        status: JobStatus::Terminated(ExitStatus::Code(0)),
        stdout: String::new(),
        stderr: String::new(),
        submitted: Timestamp { secs: 0, nanos: 0 },
        started: Some(Timestamp { secs: 0, nanos: 0 }),
        finished: Some(Timestamp { secs, nanos: 0 }),
        pid: None,
    }
}

#[test]
fn cleanup_removes_old_jobs() {
    let day = 86_400u64;
    let now = 100 * day;
    let jobs = vec![
        finished_job(1, now),
        finished_job(2, now - 3600),
        finished_job(3, now - 2 * day),
        finished_job(4, now - 3 * day),
        finished_job(5, now - 10 * day),
    ];
    let cutoff = cleanup_cutoff(Timestamp { secs: now, nanos: 0 }, 2 * day, 0);
    assert_eq!(cutoff, Timestamp { secs: now - 2 * day, nanos: 0 });
    assert_eq!(expired_ids(&jobs, cutoff), vec![4, 5]);
}

#[test]
fn cleanup_skips_unfinished_jobs() {
    let mut j = finished_job(1, 5);
    j.finished = None;
    assert!(expired_ids(&vec![j], Timestamp { secs: 10, nanos: 0 }).is_empty());
    assert!(expired_ids(&vec![], Timestamp { secs: 10, nanos: 0 }).is_empty());
}

#[test]
fn cutoff_saturates_at_epoch() {
    let now = Timestamp { secs: 5, nanos: 10 };
    assert_eq!(cleanup_cutoff(now, 10, 0), Timestamp { secs: 0, nanos: 0 });
    assert_eq!(cleanup_cutoff(now, 1, 20), Timestamp { secs: 3, nanos: 999_999_990 });
}

#[test]
fn timestamps() {
    let a = Timestamp { secs: 2, nanos: 500_000_000 };
    let b = Timestamp { secs: 2, nanos: 600_000_000 };
    assert!(a.le(&b) && !b.le(&a) && a.le(&a));
    assert_eq!(Timestamp::latest(a, b), b);
    assert_eq!(total_nanos(a), 2_500_000_000);
}

#[test]
fn split_and_join() {
    assert_eq!(split_cmdline("echo hello world"), ("echo".to_string(), "hello world".to_string()));
    assert_eq!(split_cmdline("echo"), ("echo".to_string(), String::new()));
    assert_eq!(split_cmdline("echo\targ"), ("echo".to_string(), "arg".to_string()));
    assert_eq!(split_cmdline("echo  two"), ("echo".to_string(), " two".to_string()));
    assert_eq!(split_cmdline(""), (String::new(), String::new()));
    assert_eq!(join_command("/bin/echo".to_string(), &"a b".to_string()), "/bin/echo a b");
    assert_eq!(join_command("/bin/echo".to_string(), &String::new()), "/bin/echo");
}

#[test]
fn appkey_resolution() {
    let mut keys = Appkeys::new();
    keys.insert("echo".to_string(), "/bin/echo".to_string());
    assert_eq!(keys.resolve("echo hello"), Some("/bin/echo hello".to_string()));
    assert_eq!(keys.resolve("echo"), Some("/bin/echo".to_string()));
    assert_eq!(keys.resolve("nosuch foo"), None);
    assert_eq!(keys.resolve("/bin/echo foo"), None);
    keys.insert("echo".to_string(), "/usr/bin/echo".to_string());
    assert_eq!(keys.lookup(&"echo".to_string()), Some("/usr/bin/echo".to_string()));
    assert_eq!(
        keys.resolve_parts("echo a"),
        Some(("/usr/bin/echo".to_string(), "a".to_string()))
    );
}

#[test]
fn replies() {
    assert_eq!(submit_reply(Response::SubmitJob(4)).unwrap(), 4);
    assert!(matches!(submit_reply(Response::Error("no".to_string())), Err(ClientError::Refused(m)) if m == "no"));
    assert!(matches!(submit_reply(Response::Done), Err(ClientError::Unexpected)));
    assert_eq!(remove_reply(Response::GetJob(finished_job(3, 1))).unwrap().id, 3);
    assert!(matches!(remove_reply(Response::SubmitJob(1)), Err(ClientError::Unexpected)));
    assert!(kill_reply(Response::Done).is_ok());
    assert!(matches!(kill_reply(Response::Error("x".to_string())), Err(ClientError::Refused(_))));
    assert_eq!(state_reply(Response::QueueState(QueueState::Stopped)).unwrap(), QueueState::Stopped);
    assert!(matches!(state_reply(Response::Done), Err(ClientError::Unexpected)));
    assert_eq!(jobs_reply(Response::GetJobs(vec![finished_job(1, 1)])).unwrap().len(), 1);
    assert!(matches!(jobs_reply(Response::GetJob(finished_job(1, 1))), Err(ClientError::Unexpected)));
}

#[test]
fn error_texts() {
    assert_eq!(error_text(QueueError::BadAppkey), "unknown appkey");
    assert_eq!(error_text(QueueError::NotFound), "no job with this id");
    assert_eq!(error_text(QueueError::Running), "the job is running; kill it first");
}

#[test]
fn transport_options() {
    assert_eq!(check_transport(true, true, false, false, false), Err(OptionError::InsecureWithCa));
    assert_eq!(check_transport(true, false, true, true, false), Err(OptionError::InsecureWithCert));
    assert_eq!(check_transport(false, false, false, false, false), Err(OptionError::MissingCa));
    assert_eq!(check_transport(false, true, true, true, false), Err(OptionError::MissingCertOrKey));
    assert_eq!(check_transport(false, true, true, true, true), Ok(()));
    assert_eq!(check_transport(true, false, true, false, false), Ok(()));
    assert_eq!(check_transport(false, true, false, false, false), Ok(()));
}

fn cli() -> Settings {
    Settings {
        ca: None,
        insecure: false,
        host: String::new(),
        port: 0,
        dump_json: false,
        loglevel: String::new(),
        state_file: None,
        cert: None,
        key: None,
        pidfile: None,
        notify_url: None,
    }
}

fn no_file() -> FileSettings {
    FileSettings {
        ca: None,
        insecure: None,
        host: None,
        port: None,
        dump_json: None,
        loglevel: None,
        state_file: None,
        cert: None,
        key: None,
        pidfile: None,
        notify_url: None,
    }
}

#[test]
fn settings_defaults() {
    let s = merge_settings(cli(), no_file(), true);
    assert_eq!(s.port, DEFAULT_PORT);
    assert_eq!(s.host, "localhost");
    assert_eq!(s.loglevel, "Info");
    assert_eq!(s.state_file.as_deref(), Some("/var/lib/qmanager/qmanager.state"));
    assert!(!s.insecure && !s.dump_json);
}

#[test]
fn settings_precedence() {
    let mut c = cli();
    c.port = 9000;
    c.host = "cli-host".to_string();
    let mut f = no_file();
    f.port = Some(8000);
    f.host = Some("file-host".to_string());
    f.loglevel = Some("Debug".to_string());
    f.ca = Some("/etc/ca.pem".to_string());
    f.insecure = Some(true);
    f.cert = Some("/etc/cert.pem".to_string());
    f.dump_json = Some(true);
    let s = merge_settings(c, f, false);
    assert_eq!(s.port, 9000);
    assert_eq!(s.host, "cli-host");
    assert_eq!(s.loglevel, "Debug");
    assert_eq!(s.ca.as_deref(), Some("/etc/ca.pem"));
    assert!(s.insecure && s.dump_json);
    assert_eq!(s.cert, None);
    let mut c = cli();
    c.insecure = true;
    let mut f = no_file();
    f.ca = Some("/etc/ca.pem".to_string());
    f.cert = Some("/etc/cert.pem".to_string());
    let s = merge_settings(c, f, true);
    assert_eq!(s.ca, None);
    assert_eq!(s.cert.as_deref(), Some("/etc/cert.pem"));
}

#[test]
fn state_keeps_path() {
    assert_eq!(State::from("/tmp/q.state".to_string()).state_file, "/tmp/q.state");
    assert_eq!(State::load("x".to_string()).state_file, "x");
}

#[test]
fn argument_words() {
    assert_eq!(split_words("a  bc\td "), vec!["a".to_string(), "bc".to_string(), "d".to_string()]);
    assert_eq!(split_words(" x"), vec!["x".to_string()]);
    assert!(split_words("").is_empty());
    assert!(split_words("   ").is_empty());
}
