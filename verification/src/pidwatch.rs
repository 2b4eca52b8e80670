//! Watching a process for its exit through an eBPF program: what an exit
//! event of the program means.

use vstd::prelude::*;

verus! {

/// The limit of locked memory that the eBPF program needs, in bytes.
pub const MEMLOCK_LIMIT: u64 = 134217728;

/// Why the PID watcher failed.
#[derive(Clone, Copy, Debug, PartialEq, Eq, Structural)]
pub enum PidWatchError {
    /// The exit event holds a combination of fields that cannot occur.
    InvalidEvent,
    /// The exit event is shorter than its layout.
    ShortEvent,
    /// The watcher could not be set up or polled.
    Setup,
}

/// An event sent by the PID watcher.
#[derive(Clone, Copy, Debug, PartialEq, Eq, Structural)]
pub enum Event {
    /// The PID watcher failed.
    Error(PidWatchError),
    /// The process exited normally, with this exit code.
    Exited(i32),
    /// A signal stopped the process; this is its exit code.
    Signaled(i32),
    /// The process got killed because it ran out of memory.
    OOMKilled,
}

/// The event of an exit record with these fields: an OOM kill wins; a
/// non-zero signal code with a zero exit code is a signal; a zero signal
/// code is a normal exit; anything else is an error.
pub open spec fn spec_exit_event(exit_code: i32, signaled_exit_code: i32, oom_killed: bool) -> Event {
    if oom_killed {
        Event::OOMKilled
    } else if exit_code == 0 && signaled_exit_code != 0 {
        Event::Signaled(signaled_exit_code)
    } else if signaled_exit_code == 0 {
        Event::Exited(exit_code)
    } else {
        Event::Error(PidWatchError::InvalidEvent)
    }
}

impl Event {
    /// The event of an exit record of the eBPF program.
    pub fn from_exit(exit_code: i32, signaled_exit_code: i32, oom_killed: bool) -> (e: Self)
        ensures
            e == spec_exit_event(exit_code, signaled_exit_code, oom_killed),
            oom_killed <==> e is OOMKilled,
            !oom_killed && signaled_exit_code == 0 ==> e == Event::Exited(exit_code),
            e matches Event::Signaled(s) ==> s == signaled_exit_code && s != 0 && exit_code == 0,
            e matches Event::Exited(c) ==> c == exit_code && signaled_exit_code == 0,
            e is Error ==> exit_code != 0 && signaled_exit_code != 0 && !oom_killed,
    {
        if oom_killed {
            Event::OOMKilled
        } else if exit_code == 0 && signaled_exit_code != 0 {
            Event::Signaled(signaled_exit_code)
        } else if signaled_exit_code == 0 {
            Event::Exited(exit_code)
        } else {
            Event::Error(PidWatchError::InvalidEvent)
        }
    }
}

/// The main PID watching type: it watches one process.
#[derive(Clone, Copy, Debug, PartialEq, Eq, Structural)]
pub struct PidWatch {
    pid: u32,
}

impl PidWatch {
    /// The process that is watched.
    pub closed spec fn spec_pid(&self) -> u32 {
        self.pid
    }

    /// Create a new PidWatch instance for the process `pid`.
    pub fn new(pid: u32) -> (w: Self)
        ensures
            w.spec_pid() == pid,
    {
        PidWatch { pid }
    }

    /// The process that is watched.
    pub fn pid(&self) -> (p: u32)
        ensures
            p == self.spec_pid(),
    {
        self.pid
    }
}

} // verus!
