use conmonrs::oom::{
    cgroup_v1_path, cgroup_v2_path, check_for_oom, event_control_line, initial_oom_counter,
    memory_events_path, oom_control_paths, oom_v1_step, oom_v2_step, proc_cgroup_path, OOMEvent,
    OomError, StopRule, WatchEvent,
};

const EVENTS: &[u8] = b"low 0\nhigh 0\nmax 12\noom 3\noom_kill 2\noom_group_kill 0\n";

#[test]
fn oom_check_finds_first_new_counter() {
    assert_eq!(check_for_oom(EVENTS, 0), Ok((3, true)));
    assert_eq!(check_for_oom(EVENTS, 3), Ok((2, true)));
}

#[test]
fn oom_check_reports_nothing_new() {
    let events = b"oom 4\noom_kill 4\n";
    assert_eq!(check_for_oom(events, 4), Ok((0, false)));
    assert_eq!(check_for_oom(b"", 7), Ok((0, false)));
    assert_eq!(check_for_oom(b"low 1\nhigh 2\n", 0), Ok((0, false)));
}

#[test]
fn oom_check_trims_and_accepts_plus() {
    assert_eq!(check_for_oom(b"oom +5 \n", 0), Ok((5, true)));
    assert_eq!(check_for_oom(b"oom_kill 9", 1), Ok((9, true)));
}

#[test]
fn oom_check_errors() {
    assert_eq!(check_for_oom(b"oom x\n", 0), Err(OomError::InvalidCounter));
    assert_eq!(check_for_oom(b"oom 18446744073709551616\n", 0), Err(OomError::InvalidCounter));
    assert_eq!(check_for_oom(b"low 0\n\xff\n", 0), Err(OomError::InvalidUtf8));
}

#[test]
fn oom_initial_counter() {
    assert_eq!(initial_oom_counter(Some(EVENTS)), 3);
    assert_eq!(initial_oom_counter(Some(b"oom 0\noom_kill 0\n")), 0);
    assert_eq!(initial_oom_counter(None), 0);
}

#[test]
fn oom_cgroup_v2_path_of_first_line() {
    let p = cgroup_v2_path(b"0::/user.slice/crio-1.scope\n").unwrap();
    assert_eq!(p, "/sys/fs/cgroup/user.slice/crio-1.scope");
    assert_eq!(cgroup_v2_path(b""), Err(OomError::NoLine));
    assert_eq!(cgroup_v2_path(b"0:\n"), Err(OomError::NoPath));
    assert_eq!(cgroup_v2_path(b"0::relative\n"), Err(OomError::NotAbsolute));
}

#[test]
fn oom_cgroup_v1_path_of_memory() {
    let content = b"12:cpuset:/a\n4:memory:/kubepods/pod1\n1:name=systemd:/x\n";
    assert_eq!(
        cgroup_v1_path(content, "memory").unwrap(),
        "/sys/fs/cgroup/memory/kubepods/pod1"
    );
    // An empty subsystem field matches too (a unified line).
    assert_eq!(cgroup_v1_path(b"0::/u\n", "memory").unwrap(), "/sys/fs/cgroup/memory/u");
    assert_eq!(cgroup_v1_path(b"1:cpu:/a\n", "memory"), Err(OomError::NoPathFound));
    assert_eq!(cgroup_v1_path(b"garbage\n", "memory"), Err(OomError::NoSubsystem));
    assert_eq!(cgroup_v1_path(b"1:memory\n", "memory"), Err(OomError::NoPath));
}

#[test]
fn oom_paths() {
    assert_eq!(proc_cgroup_path(42), "/proc/42/cgroup");
    assert_eq!(memory_events_path("/sys/fs/cgroup/a"), "/sys/fs/cgroup/a/memory.events");
    let (oom, control) = oom_control_paths("/sys/fs/cgroup/memory/a");
    assert_eq!(oom, "/sys/fs/cgroup/memory/a/memory.oom_control");
    assert_eq!(control, "/sys/fs/cgroup/memory/a/cgroup.event_control");
    assert_eq!(event_control_line(7, 12), "7 12");
}

#[test]
fn oom_v2_change_with_new_counter_reports() {
    let s = oom_v2_step(0, WatchEvent::Changed, Some(b"oom 1\n"), Some(b"oom 0\n"), false);
    assert_eq!(s.last_counter, 1);
    assert!(s.write_oom_files);
    assert_eq!(s.report, Some(OOMEvent { oom: true }));
    assert_eq!(s.stop, StopRule::StopWhenReported);
}

#[test]
fn oom_v2_change_looks_at_parent() {
    let s = oom_v2_step(1, WatchEvent::Changed, Some(b"oom 1\n"), Some(b"oom_kill 4\n"), false);
    assert_eq!(s.last_counter, 4);
    assert!(s.write_oom_files);
}

#[test]
fn oom_v2_change_without_oom_goes_on() {
    let s = oom_v2_step(1, WatchEvent::Changed, Some(b"oom 1\n"), None, false);
    assert_eq!(s.last_counter, 1);
    assert!(!s.write_oom_files);
    assert_eq!(s.report, None);
    assert_eq!(s.stop, StopRule::Continue);
}

#[test]
fn oom_v2_missing_file_counts_as_oom() {
    let s = oom_v2_step(0, WatchEvent::Changed, None, None, true);
    assert_eq!(s.last_counter, 1);
    assert_eq!(s.report, Some(OOMEvent { oom: true }));
}

#[test]
fn oom_v2_cancel_checks_last_time() {
    let s = oom_v2_step(2, WatchEvent::Cancelled, Some(b"oom 3\n"), None, false);
    assert_eq!(s.report, Some(OOMEvent { oom: true }));
    assert_eq!(s.stop, StopRule::Stop);
    let s = oom_v2_step(3, WatchEvent::Cancelled, Some(b"oom 3\n"), Some(b"oom 9\n"), false);
    assert_eq!(s.report, Some(OOMEvent { oom: false }));
    // The parent only counts where the container's file cannot be read.
    let s = oom_v2_step(3, WatchEvent::Cancelled, None, Some(b"oom 9\n"), false);
    assert_eq!(s.report, Some(OOMEvent { oom: true }));
}

#[test]
fn oom_v2_remove_and_failure_stop_without_oom() {
    for e in [WatchEvent::Removed, WatchEvent::Failed] {
        let s = oom_v2_step(5, e, Some(b"oom 9\n"), None, false);
        assert_eq!(s.report, Some(OOMEvent { oom: false }));
        assert!(!s.write_oom_files);
        assert_eq!(s.stop, StopRule::Stop);
    }
    let s = oom_v2_step(5, WatchEvent::AccessOpen, Some(b"oom 9\n"), None, false);
    assert_eq!(s.report, None);
    assert_eq!(s.stop, StopRule::Continue);
}

#[test]
fn oom_v1_steps() {
    let s = oom_v1_step(true);
    assert!(s.write_oom_files);
    assert_eq!(s.report, Some(OOMEvent { oom: true }));
    let s = oom_v1_step(false);
    assert!(!s.write_oom_files);
    assert_eq!(s.report, Some(OOMEvent { oom: false }));
}

#[test]
fn oom_baseline_hides_earlier_ooms() {
    let events = b"oom 2\noom_kill 2\n";
    let baseline = initial_oom_counter(Some(events));
    assert_eq!(baseline, 2);
    assert_eq!(check_for_oom(events, baseline), Ok((0, false)));
    // A new OOM after the start is found.
    assert_eq!(check_for_oom(b"oom 3\noom_kill 3\n", baseline), Ok((3, true)));
}

#[test]
fn oom_baseline_with_differing_counters_reports() {
    // With differing counters, the baseline is the first one; the other
    // counter is reported at the next check.
    let events = b"oom 3\noom_kill 2\n";
    let baseline = initial_oom_counter(Some(events));
    assert_eq!(baseline, 3);
    assert_eq!(check_for_oom(events, baseline), Ok((2, true)));
}

#[test]
fn oom_check_reports_first_differing_counter() {
    assert_eq!(check_for_oom(b"oom 2\noom_kill 2\n", 0), Ok((2, true)));
    assert_eq!(check_for_oom(b"oom 2\noom_kill 2\n", 2), Ok((0, false)));
    assert_eq!(check_for_oom(b"low 1\noom 2\noom_kill 5\n", 2), Ok((5, true)));
}
