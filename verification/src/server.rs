//! The monitor server: its configuration and what it answers.

use vstd::prelude::*;
use vstd::string::StringExecFns;
use vstd::utf8::{decode_utf8, valid_utf8};
use crate::child::ExitChannelData;
use crate::config::{Commands, Config, ConfigError, FsState, Verbosity};
use crate::paths::{join, path_join};
use crate::text::{trimmed, utf8_str};

verus! {

/// The version that the server reports.
pub const VERSION: &'static str = "0.1.0";

/// The server and its configuration.
pub struct ConmonServerImpl {
    config: Config,
}

impl ConmonServerImpl {
    /// The configuration of the server.
    pub closed spec fn spec_config(&self) -> &Config {
        &self.config
    }

    /// Create a new server with the configuration `config`, which must pass
    /// its checks against the file system `fs`.
    pub fn new(config: Config, fs: FsState) -> (r: Result<Self, ConfigError>)
        ensures
            r is Ok <==> config.spec_validate(fs).outcome is Ok,
            r matches Ok(s) ==> s.spec_config() == &config,
            r matches Err(e) ==> config.spec_validate(fs).outcome == Err::<(), ConfigError>(e),
    {
        match config.validate(fs).outcome {
            Err(e) => Err(e),
            Ok(()) => Ok(ConmonServerImpl { config }),
        }
    }

    /// The configuration of the server.
    pub fn config(&self) -> (c: &Config)
        ensures
            c == self.spec_config(),
    {
        &self.config
    }

    /// The version that the server answers a version request with.
    pub fn version(&self) -> (v: &'static str)
        ensures
            v@ == VERSION@,
    {
        VERSION
    }
}

/// What the monitor does when it starts.
#[derive(Clone, Copy, Debug, PartialEq, Eq, Structural)]
pub enum Startup {
    /// Print the version, verbosely where the flag is true, and exit.
    PrintVersion(bool),
    /// Run the pause process of a pod, and exit.
    RunPause,
    /// Check the configuration and serve.
    Serve,
}

/// What the monitor does with the configuration `config` when it starts:
/// the version flag comes first, then the pause command.
pub open spec fn spec_startup(config: &Config) -> Startup {
    match config.version {
        Some(v) => Startup::PrintVersion(v == Verbosity::Full),
        None => match config.command {
            Some(Commands::Pause { .. }) => Startup::RunPause,
            None => Startup::Serve,
        },
    }
}

/// What the monitor does with its configuration when it starts.
pub fn startup(config: &Config) -> (s: Startup)
    ensures
        s == spec_startup(config),
        config.version matches Some(v) ==> s == Startup::PrintVersion(v == Verbosity::Full),
        config.version is None ==> (s is RunPause <==> config.command is Some),
        s is Serve <==> config.version is None && config.command is None,
{
    match config.version {
        Some(v) => Startup::PrintVersion(match v {
            Verbosity::Full => true,
            Verbosity::Default => false,
        }),
        None => match config.command {
            Some(Commands::Pause { .. }) => Startup::RunPause,
            None => Startup::Serve,
        },
    }
}

/// The most worker threads of the monitor's runtime.
pub const MAX_WORKER_THREADS: usize = 4;

/// The worker threads of the monitor's runtime on a machine with `cpus`
/// processors: one per processor, at most four.
pub fn worker_threads(cpus: usize) -> (n: usize)
    ensures
        n == if cpus < MAX_WORKER_THREADS { cpus } else { MAX_WORKER_THREADS },
{
    if cpus < MAX_WORKER_THREADS {
        cpus
    } else {
        MAX_WORKER_THREADS
    }
}

/// The PID file that the runtime writes for a container: `pidfile` in its
/// bundle.
pub fn bundle_pidfile(bundle_path: &str) -> (p: String)
    ensures
        p@ == path_join(bundle_path@, "pidfile"@),
{
    join(bundle_path, "pidfile")
}

/// The error of a failed container creation: the error, followed by what
/// the runtime wrote to stderr where it wrote anything; `None` where that is
/// not valid UTF-8.
pub fn create_failure_message(error: &str, stderr: &[u8]) -> (r: Option<String>)
    ensures
        stderr@.len() == 0 ==> (r matches Some(m) && m@ == error@),
        stderr@.len() > 0 ==> (r is Some <==> valid_utf8(stderr@)),
        stderr@.len() > 0 ==> (r matches Some(m) ==> m@ == error@ + ": "@ + decode_utf8(stderr@)),
{
    let mut m = String::from_str(error);
    if stderr.len() == 0 {
        return Some(m);
    }
    match utf8_str(stderr) {
        None => None,
        Some(text) => {
            m.append(": ");
            m.append(text);
            Some(m)
        },
    }
}

/// The exit code that an exec request reports where its process could not
/// be created.
pub const EXEC_CREATE_FAILED: i32 = -2;

/// The answer to an exec request.
#[derive(Clone, Debug, PartialEq, Eq)]
pub struct ExecSyncResponse {
    pub stdout: Vec<u8>,
    pub stderr: Vec<u8>,
    pub exit_code: i32,
    pub timed_out: bool,
}

/// The deadline of an exec request, in seconds from now: none for a
/// timeout of 0.
pub fn exec_deadline(timeout_sec: u64) -> (d: Option<u64>)
    ensures
        d == (if timeout_sec > 0 { Some(timeout_sec) } else { None::<u64> }),
{
    if timeout_sec > 0 {
        Some(timeout_sec)
    } else {
        None
    }
}

/// The answer to an exec request: where the process ran, the output that
/// was collected, its exit code, and whether either collecting the output or
/// waiting for the exit timed out; where it could not be created, the
/// creation failure code.
pub fn exec_sync_response(outcome: Option<(Vec<u8>, Vec<u8>, bool, ExitChannelData)>) -> (r: ExecSyncResponse)
    ensures
        match outcome {
            Some((stdout, stderr, read_timed_out, exit)) => r.stdout@ == stdout@ && r.stderr@ == stderr@
                && r.exit_code == exit.exit_code && r.timed_out == (read_timed_out || exit.timed_out),
            None => r.stdout@.len() == 0 && r.stderr@.len() == 0 && r.exit_code == EXEC_CREATE_FAILED
                && !r.timed_out,
        },
{
    match outcome {
        Some((stdout, stderr, read_timed_out, exit)) => ExecSyncResponse {
            stdout,
            stderr,
            exit_code: exit.exit_code,
            timed_out: read_timed_out || exit.timed_out,
        },
        None => ExecSyncResponse {
            stdout: Vec::new(),
            stderr: Vec::new(),
            exit_code: EXEC_CREATE_FAILED,
            timed_out: false,
        },
    }
}

} // verus!
