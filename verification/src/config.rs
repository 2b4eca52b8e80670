//! Configuration of the monitor.

use vstd::prelude::*;
use vstd::string::StringExecFns;
use vstd::string::StrSliceExecFns;
use crate::paths::{join, path_join};
use crate::text::{trim, trimmed};

verus! {

/// Available log levels.
#[derive(Clone, Copy, Debug, PartialEq, Eq, Hash, Structural)]
pub enum LogLevel {
    /// Trace level, the most verbose one.
    Trace,
    /// Debug level, less verbose than trace.
    Debug,
    /// Info level, less verbose than debug.
    Info,
    /// Warn level, less verbose than info.
    Warn,
    /// Error level, showing only errors.
    Error,
    /// Disable logging.
    Off,
}

/// The name of a log level, in lower case.
pub open spec fn log_level_name(l: LogLevel) -> Seq<char> {
    match l {
        LogLevel::Trace => "trace"@,
        LogLevel::Debug => "debug"@,
        LogLevel::Info => "info"@,
        LogLevel::Warn => "warn"@,
        LogLevel::Error => "error"@,
        LogLevel::Off => "off"@,
    }
}

impl LogLevel {
    /// The name of the level, in lower case.
    pub fn as_str(&self) -> (s: &'static str)
        ensures
            s@ == log_level_name(*self),
    {
        match self {
            LogLevel::Trace => "trace",
            LogLevel::Debug => "debug",
            LogLevel::Info => "info",
            LogLevel::Warn => "warn",
            LogLevel::Error => "error",
            LogLevel::Off => "off",
        }
    }
}

impl Default for LogLevel {
    fn default() -> (l: Self)
        ensures
            l == LogLevel::Info,
    {
        LogLevel::Info
    }
}

/// Available verbosity levels.
#[derive(Clone, Copy, Debug, PartialEq, Eq, Hash, Structural)]
pub enum Verbosity {
    /// The default output verbosity.
    Default,
    /// The full output verbosity.
    Full,
}

impl Verbosity {
    /// The name of the verbosity, in lower case.
    pub fn as_str(&self) -> (s: &'static str)
        ensures
            *self == Verbosity::Default ==> s@ == "default"@,
            *self == Verbosity::Full ==> s@ == "full"@,
    {
        match self {
            Verbosity::Default => "default",
            Verbosity::Full => "full",
        }
    }
}

/// Available log drivers.
#[derive(Clone, Copy, Debug, PartialEq, Eq, Hash, Structural)]
pub enum LogDriver {
    /// Use stdout as log driver.
    Stdout,
    /// Use systemd journald as log driver.
    Systemd,
}

impl LogDriver {
    /// The name of the driver, in lower case.
    pub fn as_str(&self) -> (s: &'static str)
        ensures
            *self == LogDriver::Stdout ==> s@ == "stdout"@,
            *self == LogDriver::Systemd ==> s@ == "systemd"@,
    {
        match self {
            LogDriver::Stdout => "stdout",
            LogDriver::Systemd => "systemd",
        }
    }
}

impl Default for LogDriver {
    fn default() -> (d: Self)
        ensures
            d == LogDriver::Systemd,
    {
        LogDriver::Systemd
    }
}

/// Possible subcommands.
#[derive(Clone, Debug, PartialEq, Eq)]
pub enum Commands {
    /// Run pause, which bind mounts selected namespaces to the local file
    /// system.
    Pause {
        /// The base path for pinning the namespaces.
        base_path: String,
        /// The unique pod identifier for referring to the namespaces.
        pod_id: String,
        /// Unshare the IPC namespace.
        ipc: bool,
        /// Unshare the PID namespace.
        pid: bool,
        /// Unshare the network namespace.
        net: bool,
        /// Unshare the user namespace.
        user: bool,
        /// Unshare the UTS namespace.
        uts: bool,
        /// User ID mappings, each "CONTAINER_ID HOST_ID SIZE".
        uid_mappings: Vec<String>,
        /// Group ID mappings, each "CONTAINER_ID HOST_ID SIZE".
        gid_mappings: Vec<String>,
    },
}

/// An OCI container runtime monitor's configuration.
pub struct Config {
    /// Possible subcommands.
    pub command: Option<Commands>,
    /// Show version information, "full" for verbose output.
    pub version: Option<Verbosity>,
    /// The logging level of the conmon server.
    pub log_level: LogLevel,
    /// The logging driver used by the conmon server.
    pub log_driver: LogDriver,
    /// Binary path of the OCI runtime to use to operate on the containers.
    pub runtime: String,
    /// Path of the directory for conmonrs to hold files at runtime.
    pub runtime_dir: String,
    /// Root directory used by the OCI runtime to operate on containers.
    pub runtime_root: Option<String>,
    /// Do not fork if true.
    pub skip_fork: bool,
    /// Ignored, kept for backwards compatibility.
    pub cgroup_manager: String,
    /// Enable OpenTelemetry tracing.
    pub enable_tracing: bool,
    /// OpenTelemetry GRPC endpoint to be used for tracing.
    pub tracing_endpoint: String,
}

/// The name of the server socket in the runtime directory.
pub const SOCKET: &'static str = "conmon.sock";

/// The name of the PID file in the runtime directory.
pub const PIDFILE: &'static str = "pidfile";

/// The name of the file descriptor socket in the runtime directory.
pub const FD_SOCKET: &'static str = "conmon-fd.sock";

/// Why a configuration is refused.
#[derive(Clone, Copy, Debug, PartialEq, Eq, Structural)]
pub enum ConfigError {
    /// The `--runtime` flag is not set.
    RuntimeNotSet,
    /// The `--runtime-dir` flag is not set.
    RuntimeDirNotSet,
    /// The runtime does not exist.
    RuntimeMissing,
    /// The runtime root exists and is not a directory.
    RuntimeRootNotDir,
}

/// What is known of the file system when a configuration is checked.
#[derive(Clone, Copy, Debug, PartialEq, Eq, Structural)]
pub struct FsState {
    /// The runtime exists.
    pub runtime_exists: bool,
    /// The runtime directory exists.
    pub runtime_dir_exists: bool,
    /// The runtime root, where one is configured, exists.
    pub runtime_root_exists: bool,
    /// The runtime root, where one is configured, is a directory.
    pub runtime_root_is_dir: bool,
    /// The server socket exists.
    pub socket_exists: bool,
    /// The file descriptor socket exists.
    pub fd_socket_exists: bool,
}

/// The changes to the file system that a valid configuration asks for, to
/// be made in this order.
#[derive(Clone, Copy, Debug, PartialEq, Eq, Structural)]
pub struct SetupPlan {
    /// Create the runtime directory and its parents.
    pub create_runtime_dir: bool,
    /// Create the runtime root and its parents.
    pub create_runtime_root: bool,
    /// Remove the stale server socket.
    pub remove_socket: bool,
    /// Remove the stale file descriptor socket.
    pub remove_fd_socket: bool,
}

/// What checking a configuration against the file system gives: the
/// changes to make, and whether the configuration is valid.
#[derive(Clone, Copy, Debug, PartialEq, Eq)]
pub struct Validation {
    /// The changes to the file system to make, in order.
    pub changes: SetupPlan,
    /// Whether the configuration is valid, or the first check that failed.
    pub outcome: Result<(), ConfigError>,
}

impl Config {
    /// The server socket: `conmon.sock` in the runtime directory.
    pub fn socket(&self) -> (p: String)
        ensures
            p@ == path_join(self.runtime_dir@, SOCKET@),
    {
        join(self.runtime_dir.as_str(), SOCKET)
    }

    /// The PID file: `pidfile` in the runtime directory.
    pub fn conmon_pidfile(&self) -> (p: String)
        ensures
            p@ == path_join(self.runtime_dir@, PIDFILE@),
    {
        join(self.runtime_dir.as_str(), PIDFILE)
    }

    /// The file descriptor socket: `conmon-fd.sock` in the runtime directory.
    pub fn fd_socket(&self) -> (p: String)
        ensures
            p@ == path_join(self.runtime_dir@, FD_SOCKET@),
    {
        join(self.runtime_dir.as_str(), FD_SOCKET)
    }

    /// Check that the runtime and the runtime directory are set: each must
    /// hold more than whitespace. The checks of the file system come after
    /// these and are the caller's.
    pub fn validate_flags(&self) -> (r: Result<(), ConfigError>)
        ensures
            trimmed(self.runtime@).len() == 0 ==> r == Err::<(), ConfigError>(ConfigError::RuntimeNotSet),
            trimmed(self.runtime@).len() != 0 && trimmed(self.runtime_dir@).len() == 0
                ==> r == Err::<(), ConfigError>(ConfigError::RuntimeDirNotSet),
            trimmed(self.runtime@).len() != 0 && trimmed(self.runtime_dir@).len() != 0
                ==> r == Ok::<(), ConfigError>(()),
    {
        if trim(self.runtime.as_str()).unicode_len() == 0 {
            return Err(ConfigError::RuntimeNotSet);
        }
        if trim(self.runtime_dir.as_str()).unicode_len() == 0 {
            return Err(ConfigError::RuntimeDirNotSet);
        }
        Ok(())
    }

    /// The outcome of checking the configuration against the file system
    /// `fs`, in the order of the checks: the flags must be set and the
    /// runtime must exist; then a missing runtime directory is created; then
    /// a runtime root that exists must be a directory, and a missing one is
    /// created; then stale sockets are removed. The changes are those made
    /// up to the check that failed, if one did.
    pub open spec fn spec_validate(&self, fs: FsState) -> Validation {
        let none = SetupPlan {
            create_runtime_dir: false,
            create_runtime_root: false,
            remove_socket: false,
            remove_fd_socket: false,
        };
        if trimmed(self.runtime@).len() == 0 {
            Validation { changes: none, outcome: Err(ConfigError::RuntimeNotSet) }
        } else if trimmed(self.runtime_dir@).len() == 0 {
            Validation { changes: none, outcome: Err(ConfigError::RuntimeDirNotSet) }
        } else if !fs.runtime_exists {
            Validation { changes: none, outcome: Err(ConfigError::RuntimeMissing) }
        } else if self.runtime_root is Some && fs.runtime_root_exists && !fs.runtime_root_is_dir {
            Validation {
                changes: SetupPlan { create_runtime_dir: !fs.runtime_dir_exists, ..none },
                outcome: Err(ConfigError::RuntimeRootNotDir),
            }
        } else {
            Validation {
                changes: SetupPlan {
                    create_runtime_dir: !fs.runtime_dir_exists,
                    create_runtime_root: self.runtime_root is Some && !fs.runtime_root_exists,
                    remove_socket: fs.socket_exists,
                    remove_fd_socket: fs.fd_socket_exists,
                },
                outcome: Ok(()),
            }
        }
    }

    /// The configuration passes its checks against the file system `fs`:
    /// runtime and runtime directory set, the runtime present, and a runtime
    /// root, where one is configured and exists, a directory.
    pub open spec fn valid_against(&self, fs: FsState) -> bool {
        &&& trimmed(self.runtime@).len() != 0
        &&& trimmed(self.runtime_dir@).len() != 0
        &&& fs.runtime_exists
        &&& !(self.runtime_root is Some && fs.runtime_root_exists && !fs.runtime_root_is_dir)
    }

    /// A valid configuration prepares the file system as it finds it: it
    /// creates the runtime directory exactly when it is missing, the runtime
    /// root exactly when one is configured and missing, and removes the
    /// server socket exactly when it exists and the file descriptor socket
    /// exactly when that one exists, each independently of the others. An
    /// invalid one removes nothing and creates no runtime root.
    pub proof fn lemma_validate_prepares(&self, fs: FsState)
        ensures
            self.spec_validate(fs).outcome is Ok <==> self.valid_against(fs),
            self.valid_against(fs) ==> {
                let c = self.spec_validate(fs).changes;
                &&& c.create_runtime_dir == !fs.runtime_dir_exists
                &&& c.create_runtime_root == (self.runtime_root is Some && !fs.runtime_root_exists)
                &&& c.remove_socket == fs.socket_exists
                &&& c.remove_fd_socket == fs.fd_socket_exists
            },
            !self.valid_against(fs) ==> {
                let c = self.spec_validate(fs).changes;
                &&& !c.create_runtime_root
                &&& !c.remove_socket
                &&& !c.remove_fd_socket
            },
            trimmed(self.runtime@).len() == 0 ==> self.spec_validate(fs).outcome == Err::<(), ConfigError>(
                ConfigError::RuntimeNotSet,
            ) && !self.spec_validate(fs).changes.create_runtime_dir,
            trimmed(self.runtime@).len() != 0 && trimmed(self.runtime_dir@).len() == 0 ==> self.spec_validate(
                fs,
            ).outcome == Err::<(), ConfigError>(ConfigError::RuntimeDirNotSet)
                && !self.spec_validate(fs).changes.create_runtime_dir,
            trimmed(self.runtime@).len() != 0 && trimmed(self.runtime_dir@).len() != 0 && !fs.runtime_exists
                ==> self.spec_validate(fs).outcome == Err::<(), ConfigError>(ConfigError::RuntimeMissing)
                && !self.spec_validate(fs).changes.create_runtime_dir,
            trimmed(self.runtime@).len() != 0 && trimmed(self.runtime_dir@).len() != 0 && fs.runtime_exists
                && self.runtime_root is Some && fs.runtime_root_exists && !fs.runtime_root_is_dir
                ==> self.spec_validate(fs).outcome == Err::<(), ConfigError>(ConfigError::RuntimeRootNotDir)
                && self.spec_validate(fs).changes.create_runtime_dir == !fs.runtime_dir_exists,
    {
    }

    /// Validate the configuration integrity against the file system `fs`;
    /// the changes it asks for are the caller's to make, also where a later
    /// check fails.
    pub fn validate(&self, fs: FsState) -> (r: Validation)
        ensures
            r == self.spec_validate(fs),
            r.outcome is Ok <==> self.valid_against(fs),
            r.outcome is Ok ==> r.changes == (SetupPlan {
                create_runtime_dir: !fs.runtime_dir_exists,
                create_runtime_root: self.runtime_root is Some && !fs.runtime_root_exists,
                remove_socket: fs.socket_exists,
                remove_fd_socket: fs.fd_socket_exists,
            }),
            r.outcome is Err ==> !r.changes.create_runtime_root && !r.changes.remove_socket
                && !r.changes.remove_fd_socket,
    {
        proof {
            self.lemma_validate_prepares(fs);
        }
        let mut changes = SetupPlan {
            create_runtime_dir: false,
            create_runtime_root: false,
            remove_socket: false,
            remove_fd_socket: false,
        };
        match self.validate_flags() {
            Err(e) => {
                return Validation { changes, outcome: Err(e) };
            },
            Ok(()) => {},
        }
        if !fs.runtime_exists {
            return Validation { changes, outcome: Err(ConfigError::RuntimeMissing) };
        }
        changes.create_runtime_dir = !fs.runtime_dir_exists;
        let has_root = self.runtime_root.is_some();
        if has_root {
            if !fs.runtime_root_exists {
                changes.create_runtime_root = true;
            } else if !fs.runtime_root_is_dir {
                return Validation { changes, outcome: Err(ConfigError::RuntimeRootNotDir) };
            }
        }
        changes.remove_socket = fs.socket_exists;
        changes.remove_fd_socket = fs.fd_socket_exists;
        Validation { changes, outcome: Ok(()) }
    }
}

} // verus!
