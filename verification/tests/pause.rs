use conmonrs::pause::{
    check_pod_id, mapping_content, mapping_file, namespace_paths, pause_args, pause_pid_path,
    unshare_plan, validate_mapping, MappingError, Namespace, Pause, PauseError, UnsharePlan,
};

fn strings(v: &[&str]) -> Vec<String> {
    v.iter().map(|s| s.to_string()).collect()
}

#[test]
fn pause_namespace_paths() {
    assert_eq!(Namespace::Net.path("/var/run", "pod"), "/var/run/netns/pod");
    let all = namespace_paths("/b", "p");
    assert_eq!(all.len(), 5);
    assert_eq!(all[0], (Namespace::Ipc, "/b/ipcns/p".to_string()));
    assert_eq!(all[4], (Namespace::Uts, "/b/utsns/p".to_string()));
    assert_eq!(pause_pid_path("/b", "p"), "/b/conmonrs/p.pid");
}

#[test]
fn pause_args_for_namespaces() {
    let args = pause_args("pod", &[Namespace::Ipc, Namespace::Net], &vec![], &vec![]).unwrap();
    assert_eq!(args, strings(&["--pod-id=pod", "--ipc", "--net"]));
    let args = pause_args(
        "pod",
        &[Namespace::User],
        &strings(&["0 1000 1"]),
        &strings(&["0 2000 1", "1 3000 2"]),
    )
    .unwrap();
    assert_eq!(
        args,
        strings(&[
            "--pod-id=pod",
            "--user",
            "--uid-mappings=0 1000 1",
            "--gid-mappings=0 2000 1",
            "--gid-mappings=1 3000 2"
        ])
    );
    assert_eq!(
        pause_args("pod", &[Namespace::User], &vec![], &strings(&["0 1 1"])),
        Err(PauseError::UidMappingsEmpty)
    );
    assert_eq!(
        pause_args("pod", &[Namespace::User], &strings(&["0 1 1"]), &vec![]),
        Err(PauseError::GidMappingsEmpty)
    );
}

#[test]
fn pause_mappings() {
    assert_eq!(validate_mapping("0 1000 1"), Ok(()));
    assert_eq!(validate_mapping("0 1000"), Err(MappingError::WrongFormat));
    assert_eq!(validate_mapping("0 x 1"), Err(MappingError::NotU32));
    let (text, r) = mapping_content(&strings(&["0 1 1", "5 6 7"]));
    assert_eq!(r, Ok(()));
    assert_eq!(text, "0 1 1\n5 6 7\n");
    let (text, r) = mapping_content(&strings(&["0 1 1", "bad", "5 6 7"]));
    assert_eq!(r, Err(MappingError::WrongFormat));
    assert_eq!(text, "0 1 1\n");
    assert_eq!(mapping_file(12, true), "/proc/12/gid_map");
    assert_eq!(mapping_file(12, false), "/proc/12/uid_map");
}

#[test]
fn pause_from_pid_file() {
    let p = Pause::from_pid_file("/b".to_string(), "p".to_string(), " 321\n").unwrap();
    assert_eq!(p.pid(), 321);
    assert_eq!(p.base_path(), "/b");
    assert_eq!(p.pod_id(), "p");
    assert_eq!(p.namespaces().len(), 5);
    let (paths, pid_file) = p.stop_targets();
    assert_eq!(paths[1], "/b/pidns/p");
    assert_eq!(pid_file, "/b/conmonrs/p.pid");
    assert_eq!(
        Pause::from_pid_file("/b".to_string(), "p".to_string(), "abc").err(),
        Some(PauseError::InvalidPid)
    );
}

#[test]
fn pause_pod_id_and_unshare() {
    assert_eq!(check_pod_id(""), Err(PauseError::NoPodId));
    assert_eq!(check_pod_id("x"), Ok(()));
    assert_eq!(
        unshare_plan(true, false, true, true, false),
        UnsharePlan { ipc: true, pid: false, net: true, mount: true, uts: false, user: true }
    );
}

#[test]
fn pause_mapping_words_split_on_any_whitespace() {
    assert_eq!(validate_mapping("  0\t1000 \u{3000}1  "), Ok(()));
    assert_eq!(validate_mapping("0 1000 1 2"), Err(MappingError::WrongFormat));
    assert_eq!(validate_mapping("\u{a0}"), Err(MappingError::WrongFormat));
}
