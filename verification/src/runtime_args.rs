//! The command lines that the monitor hands to the OCI runtime.

use vstd::prelude::*;
use vstd::string::StringExecFns;
use crate::config::{Config, LogLevel};
use crate::paths::{file_name, path_file_name};

verus! {

/// The cgroup managers that a runtime can be told to use.
#[derive(Clone, Copy, Debug, PartialEq, Eq, Structural)]
pub enum CgroupManager {
    /// systemd manages the cgroups.
    Systemd,
    /// The runtime writes the cgroup file system itself.
    Cgroupfs,
}

/// Why no runtime arguments can be built.
#[derive(Clone, Copy, Debug, PartialEq, Eq, Structural)]
pub enum ArgsError {
    /// The runtime path has no file name.
    NoFileName,
}

/// The strings of a vector of strings.
pub open spec fn strings(v: Seq<String>) -> Seq<Seq<char>> {
    v.map_values(|s: String| s@)
}

/// The `--log-level` flag that `crun` gets for a log level, if any.
pub open spec fn crun_log_level_args(level: LogLevel) -> Seq<Seq<char>> {
    match level {
        LogLevel::Debug => seq!["--log-level=debug"@],
        LogLevel::Error => seq!["--log-level=error"@],
        LogLevel::Warn => seq!["--log-level=warning"@],
        _ => Seq::empty(),
    }
}

/// `--root=ROOT` where a runtime root is set.
pub open spec fn root_args(runtime_root: Option<Seq<char>>) -> Seq<Seq<char>> {
    match runtime_root {
        Some(rr) => seq!["--root="@ + rr],
        None => Seq::empty(),
    }
}

/// `--systemd-cgroup` where systemd manages the cgroups.
pub open spec fn cgroup_args(cgroup_manager: CgroupManager) -> Seq<Seq<char>> {
    if cgroup_manager == CgroupManager::Systemd {
        seq!["--systemd-cgroup"@]
    } else {
        Seq::empty()
    }
}

/// The runtime root of a configuration, as characters.
pub open spec fn spec_root(config: Config) -> Option<Seq<char>> {
    match config.runtime_root {
        Some(rr) => Some(rr@),
        None => None,
    }
}

/// The arguments that every runtime call starts with: for `crun`, where
/// to log and how much; then the runtime root and the cgroup manager.
pub open spec fn spec_default_args(config: Config, id: Seq<char>, cgroup_manager: CgroupManager) -> Result<Seq<Seq<char>>, ArgsError> {
    match path_file_name(config.runtime@) {
        None => Err(ArgsError::NoFileName),
        Some(name) => Ok((if name == "crun"@ {
            seq!["--log=journald:"@ + id] + crun_log_level_args(config.log_level)
        } else {
            Seq::empty()
        }) + root_args(spec_root(config)) + cgroup_args(cgroup_manager)),
    }
}

/// The arguments that create a container.
pub open spec fn spec_create_args(
    config: Config,
    id: Seq<char>,
    console_socket: Option<Seq<char>>,
    pidfile: Seq<char>,
    cgroup_manager: CgroupManager,
    bundle_path: Seq<char>,
    global_args: Seq<Seq<char>>,
    command_args: Seq<Seq<char>>,
) -> Result<Seq<Seq<char>>, ArgsError> {
    match spec_default_args(config, id, cgroup_manager) {
        Err(e) => Err(e),
        Ok(default) => Ok(default + root_args(spec_root(config)) + cgroup_args(cgroup_manager) + global_args
            + seq!["create"@, "--bundle"@, bundle_path, "--pid-file"@, pidfile] + command_args + match console_socket {
            Some(p) => seq!["--console-socket="@ + p],
            None => Seq::empty(),
        } + seq![id]),
    }
}

/// The arguments that execute a command in a container, without the command.
pub open spec fn spec_exec_args(
    config: Config,
    id: Seq<char>,
    console_socket: Option<Seq<char>>,
    pidfile: Seq<char>,
    cgroup_manager: CgroupManager,
) -> Result<Seq<Seq<char>>, ArgsError> {
    match spec_default_args(config, id, cgroup_manager) {
        Err(e) => Err(e),
        Ok(default) => Ok(default + root_args(spec_root(config)) + cgroup_args(cgroup_manager) + seq![
            "exec"@,
            "-d"@,
        ] + match console_socket {
            Some(p) => seq!["--console-socket="@ + p, "--tty"@],
            None => Seq::empty(),
        } + seq!["--pid-file="@ + pidfile, id]),
    }
}

/// The arguments of a runtime call name what the call is for: a create
/// call ends with the container ID, after the console socket where there is
/// one, the command's arguments, and `create --bundle BUNDLE --pid-file
/// PIDFILE`; an exec call ends with `--pid-file=PIDFILE` and the container
/// ID, after `--console-socket=SOCKET --tty` where there is a console; both
/// pass `--systemd-cgroup` where systemd manages the cgroups and
/// `--root=ROOT` where a runtime root is set, and for `crun` they start with
/// its journald log for the container. They fail exactly where the runtime
/// path has no file name.
pub proof fn lemma_runtime_args_shape(
    config: Config,
    id: Seq<char>,
    console_socket: Option<Seq<char>>,
    pidfile: Seq<char>,
    cgroup_manager: CgroupManager,
    bundle_path: Seq<char>,
    global_args: Seq<Seq<char>>,
    command_args: Seq<Seq<char>>,
)
    ensures
        spec_create_args(config, id, console_socket, pidfile, cgroup_manager, bundle_path, global_args, command_args)
            is Err <==> path_file_name(config.runtime@) is None,
        spec_exec_args(config, id, console_socket, pidfile, cgroup_manager) is Err <==> path_file_name(
            config.runtime@,
        ) is None,
        spec_create_args(config, id, console_socket, pidfile, cgroup_manager, bundle_path, global_args, command_args)
            matches Ok(a) ==> {
            let c: int = if console_socket is Some { 1 } else { 0 };
            let n = a.len() as int;
            let k = command_args.len() as int;
            &&& n >= 6 + c + k
            &&& a[n - 1] == id
            &&& console_socket matches Some(p) ==> a[n - 2] == "--console-socket="@ + p
            &&& a.subrange(n - 1 - c - k, n - 1 - c) == command_args
            &&& a.subrange(n - 6 - c - k, n - 1 - c - k) == seq!["create"@, "--bundle"@, bundle_path, "--pid-file"@, pidfile]
            &&& cgroup_manager == CgroupManager::Systemd ==> a.contains("--systemd-cgroup"@)
            &&& config.runtime_root matches Some(rr) ==> a.contains("--root="@ + rr@)
            &&& path_file_name(config.runtime@) == Some("crun"@) ==> a[0] == "--log=journald:"@ + id
        },
        spec_exec_args(config, id, console_socket, pidfile, cgroup_manager) matches Ok(a) ==> {
            let c: int = if console_socket is Some { 2 } else { 0 };
            let n = a.len() as int;
            &&& n >= 4 + c
            &&& a[n - 1] == id
            &&& a[n - 2] == "--pid-file="@ + pidfile
            &&& console_socket matches Some(p) ==> a[n - 4] == "--console-socket="@ + p && a[n - 3] == "--tty"@
            &&& a[n - 4 - c] == "exec"@ && a[n - 3 - c] == "-d"@
            &&& cgroup_manager == CgroupManager::Systemd ==> a.contains("--systemd-cgroup"@)
            &&& config.runtime_root matches Some(rr) ==> a.contains("--root="@ + rr@)
            &&& path_file_name(config.runtime@) == Some("crun"@) ==> a[0] == "--log=journald:"@ + id
        },
{
    if let Ok(d) = spec_default_args(config, id, cgroup_manager) {
        let r = root_args(spec_root(config));
        let g = cgroup_args(cgroup_manager);
        let pre = d + r + g;
        if let Ok(a) = spec_create_args(config, id, console_socket, pidfile, cgroup_manager, bundle_path, global_args, command_args) {
            let cs = match console_socket {
                Some(p) => seq!["--console-socket="@ + p],
                None => Seq::<Seq<char>>::empty(),
            };
            let fixed = seq!["create"@, "--bundle"@, bundle_path, "--pid-file"@, pidfile];
            assert(a == pre + global_args + fixed + command_args + cs + seq![id]);
            let c: int = if console_socket is Some { 1 } else { 0 };
            let n = a.len() as int;
            let k = command_args.len() as int;
            assert(a.subrange(n - 1 - c - k, n - 1 - c) =~= command_args);
            assert(a.subrange(n - 6 - c - k, n - 1 - c - k) =~= fixed);
            if cgroup_manager == CgroupManager::Systemd {
                assert(a[(d.len() + r.len()) as int] == "--systemd-cgroup"@);
            }
            if let Some(rr) = config.runtime_root {
                assert(a[d.len() as int] == "--root="@ + rr@);
            }
            if path_file_name(config.runtime@) == Some("crun"@) {
                assert(a[0] == d[0]);
            }
        }
        if let Ok(a) = spec_exec_args(config, id, console_socket, pidfile, cgroup_manager) {
            let cs = match console_socket {
                Some(p) => seq!["--console-socket="@ + p, "--tty"@],
                None => Seq::<Seq<char>>::empty(),
            };
            assert(a == pre + seq!["exec"@, "-d"@] + cs + seq!["--pid-file="@ + pidfile, id]);
            if cgroup_manager == CgroupManager::Systemd {
                assert(a[(d.len() + r.len()) as int] == "--systemd-cgroup"@);
            }
            if let Some(rr) = config.runtime_root {
                assert(a[d.len() as int] == "--root="@ + rr@);
            }
            if path_file_name(config.runtime@) == Some("crun"@) {
                assert(a[0] == d[0]);
            }
        }
    }
}

/// The parameters of a runtime call.
pub struct GenerateRuntimeArgs<'a> {
    /// The server configuration.
    pub config: &'a Config,
    /// The container ID.
    pub id: &'a str,
    /// The console socket of a container that runs in a terminal.
    pub console_socket: Option<&'a str>,
    /// Where the runtime writes the container PID.
    pub pidfile: &'a str,
    /// The cgroup manager.
    pub cgroup_manager: CgroupManager,
}

/// `prefix` followed by `value`.
fn flag(prefix: &str, value: &str) -> (s: String)
    ensures
        s@ == prefix@ + value@,
{
    let mut s = String::from_str(prefix);
    s.append(value);
    s
}

/// Append `more` to `args`.
fn extend_strings(args: &mut Vec<String>, more: Vec<String>)
    ensures
        strings(final(args)@) == strings(old(args)@) + strings(more@),
{
    let mut more = more;
    let ghost m = more@;
    let mut rev: Vec<String> = Vec::new();
    while more.len() > 0
        invariant
            strings(m) == strings(more@) + strings(rev@).reverse(),
        decreases more.len(),
    {
        let s = more.pop().unwrap();
        let ghost r = rev@;
        rev.push(s);
        assert(strings(rev@).reverse() =~= seq![s@] + strings(r).reverse());
        assert(strings(more@) + seq![s@] =~= strings(more@.push(s)));
    }
    assert(strings(m) =~= strings(rev@).reverse());
    while rev.len() > 0
        invariant
            strings(m) == strings(args@).subrange(strings(old(args)@).len() as int, strings(args@).len() as int)
                + strings(rev@).reverse(),
            strings(args@).subrange(0, strings(old(args)@).len() as int) == strings(old(args)@),
            strings(args@).len() >= strings(old(args)@).len(),
        decreases rev.len(),
    {
        let s = rev.pop().unwrap();
        let ghost a = args@;
        args.push(s);
        assert(strings(args@) =~= strings(a).push(s@));
        assert(strings(rev@.push(s)).reverse() =~= seq![s@] + strings(rev@).reverse());
        assert(strings(args@).subrange(strings(old(args)@).len() as int, strings(args@).len() as int)
            =~= strings(a).subrange(strings(old(args)@).len() as int, strings(a).len() as int).push(s@));
        assert(strings(args@).subrange(0, strings(old(args)@).len() as int)
            =~= strings(a).subrange(0, strings(old(args)@).len() as int));
    }
    assert(strings(args@) =~= strings(args@).subrange(0, strings(old(args)@).len() as int)
        + strings(args@).subrange(strings(old(args)@).len() as int, strings(args@).len() as int));
}

impl<'a> GenerateRuntimeArgs<'a> {
    /// The runtime root of the configuration.
    fn root(&self) -> (r: Vec<String>)
        ensures
            strings(r@) == root_args(spec_root(*self.config)),
    {
        let mut r: Vec<String> = Vec::new();
        match &self.config.runtime_root {
            Some(rr) => {
                r.push(flag("--root=", rr.as_str()));
            },
            None => {},
        }
        assert(strings(r@) =~= root_args(spec_root(*self.config)));
        r
    }

    /// The cgroup manager flag.
    fn cgroup(&self) -> (r: Vec<String>)
        ensures
            strings(r@) == cgroup_args(self.cgroup_manager),
    {
        let mut r: Vec<String> = Vec::new();
        if self.cgroup_manager == CgroupManager::Systemd {
            r.push(String::from_str("--systemd-cgroup"));
        }
        assert(strings(r@) =~= cgroup_args(self.cgroup_manager));
        r
    }

    /// The console socket flags.
    fn console(&self, tty: bool) -> (r: Vec<String>)
        ensures
            strings(r@) == match self.console_socket {
                Some(p) => if tty {
                    seq!["--console-socket="@ + p@, "--tty"@]
                } else {
                    seq!["--console-socket="@ + p@]
                },
                None => Seq::<Seq<char>>::empty(),
            },
    {
        let mut r: Vec<String> = Vec::new();
        match self.console_socket {
            Some(p) => {
                r.push(flag("--console-socket=", p));
                if tty {
                    r.push(String::from_str("--tty"));
                }
            },
            None => {},
        }
        assert(strings(r@) =~= match self.console_socket {
            Some(p) => if tty {
                seq!["--console-socket="@ + p@, "--tty"@]
            } else {
                seq!["--console-socket="@ + p@]
            },
            None => Seq::<Seq<char>>::empty(),
        });
        r
    }

    /// The arguments that every runtime call starts with.
    pub fn default_args(&self) -> (r: Result<Vec<String>, ArgsError>)
        ensures
            match r {
                Ok(v) => spec_default_args(*self.config, self.id@, self.cgroup_manager) == Ok::<Seq<Seq<char>>, ArgsError>(strings(v@)),
                Err(e) => spec_default_args(*self.config, self.id@, self.cgroup_manager) == Err::<Seq<Seq<char>>, ArgsError>(e),
            },
    {
        let name = match file_name(self.config.runtime.as_str()) {
            Some(n) => n,
            None => return Err(ArgsError::NoFileName),
        };
        let mut args: Vec<String> = Vec::new();
        let crun = String::from_str("crun");
        if name == crun {
            args.push(flag("--log=journald:", self.id));
            match self.config.log_level {
                LogLevel::Debug => args.push(String::from_str("--log-level=debug")),
                LogLevel::Error => args.push(String::from_str("--log-level=error")),
                LogLevel::Warn => args.push(String::from_str("--log-level=warning")),
                _ => {},
            }
        }
        proof {
            if name@ == "crun"@ {
                assert(strings(args@) =~= seq!["--log=journald:"@ + self.id@] + crun_log_level_args(self.config.log_level));
            } else {
                assert(strings(args@) =~= Seq::<Seq<char>>::empty());
            }
        }
        extend_strings(&mut args, self.root());
        extend_strings(&mut args, self.cgroup());
        Ok(args)
    }

    /// The arguments that create the container from `bundle_path`, with the
    /// runtime's global arguments and the command's arguments.
    pub fn create_args(
        &self,
        bundle_path: &str,
        global_args: Vec<String>,
        command_args: Vec<String>,
    ) -> (r: Result<Vec<String>, ArgsError>)
        ensures
            match r {
                Ok(v) => spec_create_args(*self.config, self.id@, opt_view(self.console_socket), self.pidfile@,
                    self.cgroup_manager, bundle_path@, strings(global_args@), strings(command_args@))
                    == Ok::<Seq<Seq<char>>, ArgsError>(strings(v@)),
                Err(e) => spec_create_args(*self.config, self.id@, opt_view(self.console_socket), self.pidfile@,
                    self.cgroup_manager, bundle_path@, strings(global_args@), strings(command_args@))
                    == Err::<Seq<Seq<char>>, ArgsError>(e),
            },
    {
        let mut args = match self.default_args() {
            Ok(a) => a,
            Err(e) => return Err(e),
        };
        extend_strings(&mut args, self.root());
        extend_strings(&mut args, self.cgroup());
        extend_strings(&mut args, global_args);
        let mut fixed: Vec<String> = Vec::new();
        fixed.push(String::from_str("create"));
        fixed.push(String::from_str("--bundle"));
        fixed.push(String::from_str(bundle_path));
        fixed.push(String::from_str("--pid-file"));
        fixed.push(String::from_str(self.pidfile));
        assert(strings(fixed@) =~= seq!["create"@, "--bundle"@, bundle_path@, "--pid-file"@, self.pidfile@]);
        extend_strings(&mut args, fixed);
        extend_strings(&mut args, command_args);
        extend_strings(&mut args, self.console(false));
        let ghost before = args@;
        args.push(String::from_str(self.id));
        assert(strings(args@) =~= strings(before) + seq![self.id@]);
        Ok(args)
    }

    /// The arguments that execute a command in the container, without the
    /// command itself.
    pub fn exec_sync_args_without_command(&self) -> (r: Result<Vec<String>, ArgsError>)
        ensures
            match r {
                Ok(v) => spec_exec_args(*self.config, self.id@, opt_view(self.console_socket), self.pidfile@,
                    self.cgroup_manager) == Ok::<Seq<Seq<char>>, ArgsError>(strings(v@)),
                Err(e) => spec_exec_args(*self.config, self.id@, opt_view(self.console_socket), self.pidfile@,
                    self.cgroup_manager) == Err::<Seq<Seq<char>>, ArgsError>(e),
            },
    {
        let mut args = match self.default_args() {
            Ok(a) => a,
            Err(e) => return Err(e),
        };
        extend_strings(&mut args, self.root());
        extend_strings(&mut args, self.cgroup());
        let mut fixed: Vec<String> = Vec::new();
        fixed.push(String::from_str("exec"));
        fixed.push(String::from_str("-d"));
        assert(strings(fixed@) =~= seq!["exec"@, "-d"@]);
        extend_strings(&mut args, fixed);
        extend_strings(&mut args, self.console(true));
        let mut tail: Vec<String> = Vec::new();
        tail.push(flag("--pid-file=", self.pidfile));
        tail.push(String::from_str(self.id));
        assert(strings(tail@) =~= seq!["--pid-file="@ + self.pidfile@, self.id@]);
        extend_strings(&mut args, tail);
        Ok(args)
    }

    /// The arguments that execute `command` in the container.
    pub fn exec_sync_args(&self, command: Vec<String>) -> (r: Result<Vec<String>, ArgsError>)
        ensures
            match r {
                Ok(v) => spec_exec_args(*self.config, self.id@, opt_view(self.console_socket), self.pidfile@,
                    self.cgroup_manager) matches Ok(a) && strings(v@) == a + strings(command@),
                Err(e) => spec_exec_args(*self.config, self.id@, opt_view(self.console_socket), self.pidfile@,
                    self.cgroup_manager) == Err::<Seq<Seq<char>>, ArgsError>(e),
            },
    {
        let mut args = match self.exec_sync_args_without_command() {
            Ok(a) => a,
            Err(e) => return Err(e),
        };
        extend_strings(&mut args, command);
        Ok(args)
    }
}

/// The characters of an optional string.
pub open spec fn opt_view(s: Option<&str>) -> Option<Seq<char>> {
    match s {
        Some(p) => Some(p@),
        None => None,
    }
}

} // verus!
