use conmonrs::config::{
    Commands, Config, ConfigError, FsState, LogDriver, LogLevel, SetupPlan, Validation, Verbosity,
};
use conmonrs::runtime_args::{ArgsError, CgroupManager, GenerateRuntimeArgs};
use conmonrs::server::{startup, ConmonServerImpl, Startup};

fn config(runtime: &str, runtime_dir: &str, runtime_root: Option<&str>) -> Config {
    Config {
        command: None,
        version: None,
        log_level: LogLevel::default(),
        log_driver: LogDriver::default(),
        runtime: runtime.to_string(),
        runtime_dir: runtime_dir.to_string(),
        runtime_root: runtime_root.map(|s| s.to_string()),
        skip_fork: false,
        cgroup_manager: String::new(),
        enable_tracing: false,
        tracing_endpoint: String::new(),
    }
}

fn fs(all: bool) -> FsState {
    FsState {
        runtime_exists: all,
        runtime_dir_exists: all,
        runtime_root_exists: all,
        runtime_root_is_dir: all,
        socket_exists: all,
        fd_socket_exists: all,
    }
}

fn strings(v: &[&str]) -> Vec<String> {
    v.iter().map(|s| s.to_string()).collect()
}

#[test]
fn config_defaults_and_names() {
    assert_eq!(LogLevel::default(), LogLevel::Info);
    assert_eq!(LogDriver::default(), LogDriver::Systemd);
    assert_eq!(LogLevel::Warn.as_str(), "warn");
    assert_eq!(Verbosity::Full.as_str(), "full");
    assert_eq!(LogDriver::Stdout.as_str(), "stdout");
}

#[test]
fn config_paths() {
    let c = config("/usr/bin/runc", "/run/conmonrs", None);
    assert_eq!(c.socket(), "/run/conmonrs/conmon.sock");
    assert_eq!(c.conmon_pidfile(), "/run/conmonrs/pidfile");
    assert_eq!(c.fd_socket(), "/run/conmonrs/conmon-fd.sock");
}

#[test]
fn config_validate_flags() {
    assert_eq!(config(" ", "/run", None).validate_flags(), Err(ConfigError::RuntimeNotSet));
    assert_eq!(config("runc", "\t", None).validate_flags(), Err(ConfigError::RuntimeDirNotSet));
    assert_eq!(config("runc", "/run", None).validate_flags(), Ok(()));
}

const NO_CHANGES: SetupPlan = SetupPlan {
    create_runtime_dir: false,
    create_runtime_root: false,
    remove_socket: false,
    remove_fd_socket: false,
};

#[test]
fn config_validate_against_file_system() {
    let c = config("/usr/bin/runc", "/run/x", Some("/run/root"));
    assert_eq!(
        c.validate(fs(false)),
        Validation { changes: NO_CHANGES, outcome: Err(ConfigError::RuntimeMissing) }
    );
    assert_eq!(
        config(" ", "/run/x", None).validate(fs(true)),
        Validation { changes: NO_CHANGES, outcome: Err(ConfigError::RuntimeNotSet) }
    );
    assert_eq!(
        c.validate(fs(true)),
        Validation {
            changes: SetupPlan {
                create_runtime_dir: false,
                create_runtime_root: false,
                remove_socket: true,
                remove_fd_socket: true
            },
            outcome: Ok(())
        }
    );
    let mut state = fs(false);
    state.runtime_exists = true;
    assert_eq!(
        c.validate(state),
        Validation {
            changes: SetupPlan {
                create_runtime_dir: true,
                create_runtime_root: true,
                remove_socket: false,
                remove_fd_socket: false
            },
            outcome: Ok(())
        }
    );
}

#[test]
fn config_validate_creates_runtime_dir_before_root_check() {
    // The runtime root is a file: the runtime directory is created before
    // the check that refuses it.
    let c = config("/usr/bin/runc", "/run/x", Some("/run/root"));
    let mut state = fs(true);
    state.runtime_dir_exists = false;
    state.runtime_root_is_dir = false;
    assert_eq!(
        c.validate(state),
        Validation {
            changes: SetupPlan { create_runtime_dir: true, ..NO_CHANGES },
            outcome: Err(ConfigError::RuntimeRootNotDir)
        }
    );
}

#[test]
fn config_startup() {
    let mut c = config("runc", "/run", None);
    assert_eq!(startup(&c), Startup::Serve);
    c.command = Some(Commands::Pause {
        base_path: "/b".to_string(),
        pod_id: "p".to_string(),
        ipc: true,
        pid: false,
        net: false,
        user: false,
        uts: false,
        uid_mappings: vec![],
        gid_mappings: vec![],
    });
    assert_eq!(startup(&c), Startup::RunPause);
    c.version = Some(Verbosity::Full);
    assert_eq!(startup(&c), Startup::PrintVersion(true));
}

#[test]
fn config_server_needs_valid_config() {
    assert!(ConmonServerImpl::new(config("runc", "/run", None), fs(true)).is_ok());
    assert_eq!(
        ConmonServerImpl::new(config("", "/run", None), fs(true)).err(),
        Some(ConfigError::RuntimeNotSet)
    );
    assert_eq!(
        ConmonServerImpl::new(config("runc", "/run", None), fs(false)).err(),
        Some(ConfigError::RuntimeMissing)
    );
    let s = ConmonServerImpl::new(config("runc", "/run", None), fs(true)).ok().unwrap();
    assert_eq!(s.config().runtime, "runc");
    assert_eq!(s.version(), "0.1.0");
}

#[test]
fn runtime_args_crun() {
    let mut c = config("/usr/bin/crun", "/run", Some("/root"));
    c.log_level = LogLevel::Warn;
    let g = GenerateRuntimeArgs {
        config: &c,
        id: "ctr",
        console_socket: None,
        pidfile: "/b/pidfile",
        cgroup_manager: CgroupManager::Systemd,
    };
    assert_eq!(
        g.default_args().unwrap(),
        strings(&["--log=journald:ctr", "--log-level=warning", "--root=/root", "--systemd-cgroup"])
    );
    let exec = g.exec_sync_args(strings(&["ls", "-l"])).unwrap();
    assert_eq!(
        exec,
        strings(&[
            "--log=journald:ctr",
            "--log-level=warning",
            "--root=/root",
            "--systemd-cgroup",
            "--root=/root",
            "--systemd-cgroup",
            "exec",
            "-d",
            "--pid-file=/b/pidfile",
            "ctr",
            "ls",
            "-l"
        ])
    );
}

#[test]
fn runtime_args_create_with_terminal() {
    let c = config("/usr/bin/runc", "/run", None);
    let g = GenerateRuntimeArgs {
        config: &c,
        id: "ctr",
        console_socket: Some("/tmp/term.sock"),
        pidfile: "/b/pidfile",
        cgroup_manager: CgroupManager::Cgroupfs,
    };
    let args = g.create_args("/b", strings(&["--debug"]), strings(&["--no-pivot"])).unwrap();
    assert_eq!(
        args,
        strings(&[
            "--debug",
            "create",
            "--bundle",
            "/b",
            "--pid-file",
            "/b/pidfile",
            "--no-pivot",
            "--console-socket=/tmp/term.sock",
            "ctr"
        ])
    );
}

#[test]
fn runtime_args_need_file_name() {
    let c = config("/usr/bin/..", "/run", None);
    let g = GenerateRuntimeArgs {
        config: &c,
        id: "ctr",
        console_socket: None,
        pidfile: "/p",
        cgroup_manager: CgroupManager::Cgroupfs,
    };
    assert_eq!(g.default_args(), Err(ArgsError::NoFileName));
}

#[test]
fn config_flags_of_unicode_whitespace_are_not_set() {
    assert_eq!(
        config("\u{3000}\u{2009}", "/run", None).validate_flags(),
        Err(ConfigError::RuntimeNotSet)
    );
    assert_eq!(config(" runc\u{85}", "/run", None).validate_flags(), Ok(()));
}
