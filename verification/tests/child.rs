use conmonrs::child::{
    child_failure, cleanup_command, child_fd_numbers, exit_code, kill_targets, parse_pid, sweep_continues, ChildError,
    ChildReaper, ExitChannelData, ReaperError, WaitOutcome, WatchResult, FAILED_EXIT_CODE,
};
use conmonrs::oom::OOMEvent;

#[test]
fn child_exit_codes() {
    assert_eq!(exit_code(WaitOutcome::Exited(0)), Some(0));
    assert_eq!(exit_code(WaitOutcome::Exited(3)), Some(3));
    assert_eq!(exit_code(WaitOutcome::Signaled(9)), Some(137));
    assert_eq!(exit_code(WaitOutcome::Signaled(15)), Some(143));
    assert_eq!(exit_code(WaitOutcome::Failed), Some(-3));
    assert_eq!(exit_code(WaitOutcome::Interrupted), None);
    assert_eq!(exit_code(WaitOutcome::OtherState), None);
    assert_eq!(exit_code(WaitOutcome::StillAlive), None);
}

#[test]
fn child_sweep() {
    assert!(!sweep_continues(WaitOutcome::Exited(0)));
    assert!(!sweep_continues(WaitOutcome::StillAlive));
    assert!(!sweep_continues(WaitOutcome::Failed));
    assert!(sweep_continues(WaitOutcome::Interrupted));
    assert!(sweep_continues(WaitOutcome::OtherState));
}

#[test]
fn child_exit_data() {
    let d = ExitChannelData::from_watch(WatchResult::Completed {
        exit_code: Some(2),
        oom: Some(OOMEvent { oom: true }),
    });
    assert_eq!(d, ExitChannelData { exit_code: 2, oomed: true, timed_out: false });
    let d = ExitChannelData::from_watch(WatchResult::Completed { exit_code: None, oom: None });
    assert_eq!(d.exit_code, -1);
    assert!(!d.oomed);
    let d = ExitChannelData::from_watch(WatchResult::TimedOut);
    assert_eq!(d, ExitChannelData { exit_code: FAILED_EXIT_CODE, oomed: false, timed_out: true });
    assert_eq!(d.exit_file_content(), "-3");
}

#[test]
fn child_failure_messages() {
    assert_eq!(
        child_failure(Some(1), b""),
        ChildError::Failed("child command exited with: 1".to_string())
    );
    assert_eq!(
        child_failure(None, b"boom"),
        ChildError::Failed("child command exited with signal: boom".to_string())
    );
    assert_eq!(child_failure(Some(-2), &[0xc3]), ChildError::InvalidStderr);
}

#[test]
fn child_pid_file() {
    assert_eq!(parse_pid("1234"), Ok(1234));
    assert_eq!(parse_pid("+7"), Ok(7));
    assert_eq!(parse_pid("1234\n"), Err(ChildError::InvalidPid));
    assert_eq!(parse_pid("4294967296"), Err(ChildError::InvalidPid));
    assert_eq!(parse_pid(""), Err(ChildError::InvalidPid));
}

#[test]
fn child_fds_start_after_stdio() {
    assert_eq!(child_fd_numbers(3), vec![3, 4, 5]);
    assert!(child_fd_numbers(0).is_empty());
}

#[test]
fn child_kill_targets() {
    assert_eq!(kill_targets(100, Some(100)), vec![-100, 100]);
    assert_eq!(kill_targets(100, Some(1)), vec![100]);
    assert_eq!(kill_targets(100, None), vec![100]);
}

#[test]
fn child_reaper_register_get_forget() {
    let mut r: ChildReaper<&str> = ChildReaper::new();
    assert_eq!(r.get("a").err(), Some(ReaperError::ChildNotAvailable));
    r.register("a", 10, "first");
    r.register("b", 20, "other");
    r.register("a", 11, "second");
    assert_eq!(r.get("a").ok(), Some((11, &"second")));
    assert_eq!(r.get("b").ok(), Some((20, &"other")));
    assert_eq!(r.pids(), vec![10, 11, 20]);

    // Forgetting the last one brings back the one before.
    r.forget(11);
    assert_eq!(r.get("a").ok(), Some((10, &"first")));
    // Forgetting the first one moves the last into its place.
    r.register("a", 12, "third");
    r.forget(10);
    assert_eq!(r.get("a").ok(), Some((12, &"third")));
    r.forget(12);
    assert_eq!(r.get("a").err(), Some(ReaperError::ChildNotAvailable));
    // Forgetting an unknown process changes nothing.
    r.forget(99);
    assert_eq!(r.pids(), vec![20]);
}

#[test]
fn child_cleanup_command() {
    let cmd = vec!["/bin/cleanup".to_string(), "--id".to_string(), "x".to_string()];
    let (program, args) = cleanup_command(&cmd).unwrap();
    assert_eq!(program, "/bin/cleanup");
    assert_eq!(args, &["--id".to_string(), "x".to_string()]);
    assert!(cleanup_command(&vec![]).is_none());
}
