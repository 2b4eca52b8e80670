//! The children of the monitor: how the exit of a child process becomes an
//! exit code, what a failed runtime call reports, which processes a kill
//! reaches, and the registry of the containers' processes.

use vstd::prelude::*;
use vstd::string::StringExecFns;
use vstd::utf8::{decode_utf8, valid_utf8};
use crate::oom::OOMEvent;
use crate::parse::{parse_unsigned, parse_unsigned_str};
use crate::text::{decimal, i64_to_string, signed_decimal, utf8_str};

verus! {

/// The exit code reported where waiting for a process failed or timed out.
pub const FAILED_EXIT_CODE: i32 = -3;

/// The exit code of a process before anything is known of its exit.
pub const UNKNOWN_EXIT_CODE: i32 = -1;

/// The file descriptor that the first additional file descriptor of a child
/// gets: the first one after stdin, stdout and stderr.
pub const FIRST_FD_AFTER_STDIO: i32 = 3;

/// What is known of a process once it has been waited for.
#[derive(Clone, Copy, Debug, PartialEq, Eq, Structural)]
pub struct ExitChannelData {
    /// The exit code of the process.
    pub exit_code: i32,
    /// Whether the process ran out of memory.
    pub oomed: bool,
    /// Whether waiting for the process timed out.
    pub timed_out: bool,
}

/// What one wait for a process gave.
#[derive(Clone, Copy, Debug, PartialEq, Eq, Structural)]
pub enum WaitOutcome {
    /// The process exited with this status.
    Exited(i32),
    /// The process was killed by the signal with this number.
    Signaled(u8),
    /// The process is still running.
    StillAlive,
    /// The process changed state in another way (stopped or continued).
    OtherState,
    /// The wait was interrupted by a signal.
    Interrupted,
    /// The wait failed.
    Failed,
}

/// The exit code that waiting for a process yields, or `None` where the
/// wait has to be repeated: the status of an exit, 128 plus the number of a
/// killing signal, or the failure code.
pub open spec fn spec_exit_code(outcome: WaitOutcome) -> Option<i32> {
    match outcome {
        WaitOutcome::Exited(code) => Some(code),
        WaitOutcome::Signaled(signal) => Some((signal + 128) as i32),
        WaitOutcome::Failed => Some(FAILED_EXIT_CODE),
        _ => None,
    }
}

/// The exit code that a wait for a process yields, or `None` where the wait
/// has to be repeated.
pub fn exit_code(outcome: WaitOutcome) -> (r: Option<i32>)
    ensures
        r == spec_exit_code(outcome),
        outcome matches WaitOutcome::Exited(c) ==> r == Some(c),
        outcome matches WaitOutcome::Signaled(s) ==> r matches Some(c) && c == 128 + s,
        outcome is Failed ==> r == Some(FAILED_EXIT_CODE),
        r is None <==> (outcome is StillAlive || outcome is OtherState || outcome is Interrupted),
{
    match outcome {
        WaitOutcome::Exited(code) => Some(code),
        WaitOutcome::Signaled(signal) => Some(signal as i32 + 128),
        WaitOutcome::Failed => Some(FAILED_EXIT_CODE),
        _ => None,
    }
}

/// Whether the sweep that collects exited children goes on after a wait
/// without blocking: it stops at an exit, at a process that is still alive
/// and at a failure, and waits again otherwise.
pub fn sweep_continues(outcome: WaitOutcome) -> (r: bool)
    ensures
        r == (outcome is Signaled || outcome is OtherState || outcome is Interrupted),
{
    match outcome {
        WaitOutcome::Signaled(_) | WaitOutcome::OtherState | WaitOutcome::Interrupted => true,
        _ => false,
    }
}

/// How waiting for a watched process ended.
#[derive(Clone, Copy, Debug, PartialEq, Eq, Structural)]
pub enum WatchResult {
    /// The process was waited for before any deadline: the exit code that the
    /// wait gave, if it gave one, and the report of the OOM watcher, if any.
    Completed { exit_code: Option<i32>, oom: Option<OOMEvent> },
    /// The deadline passed first; the process gets killed.
    TimedOut,
}

/// What is reported of a watched process.
pub open spec fn spec_exit_data(result: WatchResult) -> ExitChannelData {
    match result {
        WatchResult::Completed { exit_code, oom } => ExitChannelData {
            exit_code: match exit_code {
                Some(c) => c,
                None => UNKNOWN_EXIT_CODE,
            },
            oomed: match oom {
                Some(e) => e.oom,
                None => false,
            },
            timed_out: false,
        },
        WatchResult::TimedOut => ExitChannelData {
            exit_code: FAILED_EXIT_CODE,
            oomed: false,
            timed_out: true,
        },
    }
}

/// What is reported of a watched process follows how waiting for it ended:
/// a process waited for is reported with the exit code it gave (or the
/// unknown code), as OOM-killed exactly when the OOM watcher's report says
/// so, and as not timed out; a process whose deadline passed is reported as
/// timed out with the failure code, and not as OOM-killed.
pub proof fn lemma_exit_data_reports_watch(result: WatchResult)
    ensures
        result matches WatchResult::Completed { exit_code, oom } ==> {
            &&& spec_exit_data(result).oomed == (oom matches Some(e) && e.oom)
            &&& !spec_exit_data(result).timed_out
            &&& exit_code matches Some(c) ==> spec_exit_data(result).exit_code == c
            &&& exit_code is None ==> spec_exit_data(result).exit_code == UNKNOWN_EXIT_CODE
        },
        result is TimedOut ==> spec_exit_data(result).timed_out && !spec_exit_data(result).oomed
            && spec_exit_data(result).exit_code == FAILED_EXIT_CODE,
        forall|c: Option<i32>| !(#[trigger] spec_exit_data(WatchResult::Completed { exit_code: c, oom: Some(OOMEvent { oom: false }) })).oomed,
        forall|c: Option<i32>| !(#[trigger] spec_exit_data(WatchResult::Completed { exit_code: c, oom: None })).oomed,
{
}

impl ExitChannelData {
    /// What is reported of a watched process, from how waiting for it ended.
    pub fn from_watch(result: WatchResult) -> (d: Self)
        ensures
            d == spec_exit_data(result),
            result matches WatchResult::Completed { exit_code, oom } ==> {
                &&& d.oomed == (oom matches Some(e) && e.oom)
                &&& !d.timed_out
                &&& exit_code matches Some(c) ==> d.exit_code == c
                &&& exit_code is None ==> d.exit_code == UNKNOWN_EXIT_CODE
            },
            result is TimedOut ==> d.timed_out && !d.oomed && d.exit_code == FAILED_EXIT_CODE,
    {
        proof {
            lemma_exit_data_reports_watch(result);
        }
        match result {
            WatchResult::Completed { exit_code, oom } => ExitChannelData {
                exit_code: match exit_code {
                    Some(c) => c,
                    None => UNKNOWN_EXIT_CODE,
                },
                oomed: match oom {
                    Some(e) => e.oom,
                    None => false,
                },
                timed_out: false,
            },
            WatchResult::TimedOut => ExitChannelData {
                exit_code: FAILED_EXIT_CODE,
                oomed: false,
                timed_out: true,
            },
        }
    }

    /// The content of the exit files of a process: its exit code in decimal.
    pub fn exit_file_content(&self) -> (s: String)
        ensures
            s@ == signed_decimal(self.exit_code as int),
    {
        i64_to_string(self.exit_code as i64)
    }
}

/// Why running a child command failed.
#[derive(Clone, Debug, PartialEq, Eq)]
pub enum ChildError {
    /// The child exited unsuccessfully; the message says how.
    Failed(String),
    /// The error output of the child is not valid UTF-8.
    InvalidStderr,
    /// The pid file of the child does not hold a process ID.
    InvalidPid,
}

/// The message of a child command that did not succeed: its exit status, or
/// that a signal ended it, then what it wrote to stderr, where it wrote
/// anything.
pub open spec fn spec_failure_message(code: Option<i32>, stderr: Seq<char>) -> Seq<char> {
    let base = match code {
        Some(c) => "child command exited with: "@ + signed_decimal(c as int),
        None => "child command exited with signal"@,
    };
    if stderr.len() == 0 {
        base
    } else {
        base + ": "@ + stderr
    }
}

/// The error of a child command that did not succeed, with the exit status
/// `code` (`None` where a signal ended it) and the error output `stderr`.
pub fn child_failure(code: Option<i32>, stderr: &[u8]) -> (e: ChildError)
    ensures
        match e {
            ChildError::Failed(m) => valid_utf8(stderr@) && m@ == spec_failure_message(
                code,
                decode_utf8(stderr@),
            ),
            ChildError::InvalidStderr => !valid_utf8(stderr@),
            ChildError::InvalidPid => false,
        },
{
    let mut msg = match code {
        Some(c) => {
            let mut m = String::from_str("child command exited with: ");
            let d = i64_to_string(c as i64);
            m.append(d.as_str());
            m
        },
        None => String::from_str("child command exited with signal"),
    };
    if stderr.len() > 0 {
        match utf8_str(stderr) {
            None => {
                return ChildError::InvalidStderr;
            },
            Some(text) => {
                msg.append(": ");
                msg.append(text);
            },
        }
    } else {
        proof {
            assert(stderr@ =~= Seq::<u8>::empty());
            assert(valid_utf8(stderr@));
            assert(decode_utf8(stderr@) =~= Seq::<char>::empty());
        }
    }
    ChildError::Failed(msg)
}

/// The process ID in the pid file that the runtime wrote, as `str::parse`
/// reads a `u32`.
pub fn parse_pid(content: &str) -> (r: Result<u32, ChildError>)
    ensures
        match parse_unsigned(content@, u32::MAX as nat) {
            Some(v) => r == Ok::<u32, ChildError>(v as u32),
            None => r == Err::<u32, ChildError>(ChildError::InvalidPid),
        },
{
    match parse_unsigned_str(content, u32::MAX as u64) {
        Some(v) => Ok(v as u32),
        None => Err(ChildError::InvalidPid),
    }
}

/// The file descriptors that the additional file descriptors of a child get,
/// in order: 3, 4, and so on.
pub fn child_fd_numbers(count: usize) -> (v: Vec<i32>)
    requires
        count + FIRST_FD_AFTER_STDIO <= i32::MAX,
    ensures
        v@.len() == count,
        forall|i: int| 0 <= i < count ==> v@[i] == i + FIRST_FD_AFTER_STDIO,
{
    let mut v: Vec<i32> = Vec::new();
    let mut i: usize = 0;
    while i < count
        invariant
            i <= count,
            count + FIRST_FD_AFTER_STDIO <= i32::MAX,
            v@.len() == i,
            forall|j: int| 0 <= j < i ==> v@[j] == j + FIRST_FD_AFTER_STDIO,
        decreases count - i,
    {
        v.push(i as i32 + FIRST_FD_AFTER_STDIO);
        i = i + 1;
    }
    v
}

/// The targets of a kill of the process `pid` whose process group is `pgid`
/// (`None` where it could not be found): the process group, as its negated
/// ID, where it is above 1 (group 1 would reach every process), then the
/// process itself.
pub open spec fn spec_kill_targets(pid: u32, pgid: Option<i32>) -> Seq<i32> {
    match pgid {
        Some(g) => if g > 1 {
            seq![(-g) as i32, pid as i32]
        } else {
            seq![pid as i32]
        },
        None => seq![pid as i32],
    }
}

/// The process IDs to send a signal to, in order, to kill the process `pid`
/// and its process group `pgid`.
pub fn kill_targets(pid: u32, pgid: Option<i32>) -> (v: Vec<i32>)
    ensures
        v@ == spec_kill_targets(pid, pgid),
        v@.len() >= 1 && v@.last() == pid as i32,
        pgid matches Some(g) ==> (g > 1 ==> v@.len() == 2 && v@[0] == -g),
        !(pgid matches Some(g) && g > 1) ==> v@.len() == 1,
{
    let p = pid as i32;
    match pgid {
        Some(g) => if g > 1 {
            let group: i32 = -g;
            vec![group, p]
        } else {
            vec![p]
        },
        None => vec![p],
    }
}

/// The program and the arguments of a cleanup command that runs once a
/// container exited; none for an empty command, which is not run.
pub fn cleanup_command(cmd: &Vec<String>) -> (r: Option<(&String, &[String])>)
    ensures
        match r {
            Some((program, args)) => cmd@.len() > 0 && *program == cmd@[0] && args@ == cmd@.drop_first(),
            None => cmd@.len() == 0,
        },
{
    if cmd.len() == 0 {
        None
    } else {
        let all = cmd.as_slice();
        let args = &all[1..all.len()];
        assert(args@ =~= cmd@.drop_first());
        Some((&cmd[0], args))
    }
}

/// The processes of one container or exec session, under the session's ID.
pub struct ChildGroup<T> {
    id: String,
    children: Vec<(u32, T)>,
}

/// The registry of the watched processes: for each ID, its processes in the
/// order they were registered, each with its process ID and what the caller
/// keeps of it.
pub struct ChildReaper<T> {
    grandchildren: Vec<ChildGroup<T>>,
}

/// The groups of a registry: their IDs and processes, in order.
pub type Groups<T> = Seq<(Seq<char>, Seq<(u32, T)>)>;

/// No two groups share an ID.
pub open spec fn ids_distinct<T>(gs: Groups<T>) -> bool {
    forall|i: int, j: int| 0 <= i < j < gs.len() ==> #[trigger] gs[i].0 != #[trigger] gs[j].0
}

/// Some group has the ID `id`.
pub open spec fn has_group<T>(gs: Groups<T>, id: Seq<char>) -> bool {
    exists|i: int| 0 <= i < gs.len() && #[trigger] gs[i].0 == id
}

/// The position of the group with the ID `id`.
pub open spec fn group_index<T>(gs: Groups<T>, id: Seq<char>) -> int {
    choose|i: int| 0 <= i < gs.len() && #[trigger] gs[i].0 == id
}

/// The processes registered under `id`, in order.
pub open spec fn children_of<T>(gs: Groups<T>, id: Seq<char>) -> Seq<(u32, T)> {
    if has_group(gs, id) {
        gs[group_index(gs, id)].1
    } else {
        Seq::empty()
    }
}

/// The groups once `(pid, child)` is registered under `id`: appended to the
/// group of `id`, which is created where there is none.
pub open spec fn spec_register<T>(gs: Groups<T>, id: Seq<char>, pid: u32, child: T) -> Groups<T> {
    if has_group(gs, id) {
        let g = group_index(gs, id);
        gs.update(g, (id, gs[g].1.push((pid, child))))
    } else {
        gs.push((id, seq![(pid, child)]))
    }
}

/// Position `k` of group `g` holds the process `pid`.
pub open spec fn holds_pid<T>(gs: Groups<T>, pid: u32, g: int, k: int) -> bool {
    0 <= g < gs.len() && 0 <= k < gs[g].1.len() && gs[g].1[k].0 == pid
}

/// Position `k` of group `g` is the first that holds `pid`, groups in order
/// and positions in order within a group.
pub open spec fn first_holder<T>(gs: Groups<T>, pid: u32, g: int, k: int) -> bool {
    &&& holds_pid(gs, pid, g, k)
    &&& forall|g2: int, k2: int| #[trigger] holds_pid(gs, pid, g2, k2) ==> g < g2 || (g == g2 && k <= k2)
}

/// `s` with position `k` removed, the last element taking its place, as
/// `Vec::swap_remove` does.
pub open spec fn swap_removed<A>(s: Seq<A>, k: int) -> Seq<A> {
    s.update(k, s.last()).drop_last()
}

/// The groups once the process `pid` is forgotten: its first entry is
/// removed; the groups stay as they are where none holds it.
pub open spec fn spec_forget<T>(gs: Groups<T>, pid: u32) -> Groups<T> {
    if exists|g: int, k: int| first_holder(gs, pid, g, k) {
        let (g, k) = choose|g: int, k: int| first_holder(gs, pid, g, k);
        gs.update(g, (gs[g].0, swap_removed(gs[g].1, k)))
    } else {
        gs
    }
}

/// The process IDs of all groups, groups in order.
pub open spec fn all_pids<T>(gs: Groups<T>) -> Seq<u32>
    decreases gs.len(),
{
    if gs.len() == 0 {
        Seq::empty()
    } else {
        all_pids(gs.drop_last()) + gs.last().1.map_values(|c: (u32, T)| c.0)
    }
}

/// Why a process could not be found.
#[derive(Clone, Copy, Debug, PartialEq, Eq, Structural)]
pub enum ReaperError {
    /// No process is registered under the ID.
    ChildNotAvailable,
}

impl<T> ChildReaper<T> {
    /// The groups of the registry.
    pub closed spec fn groups(&self) -> Groups<T> {
        self.grandchildren@.map_values(|g: ChildGroup<T>| (g.id@, g.children@))
    }

    /// The registry is well formed: no two groups share an ID.
    pub open spec fn wf(&self) -> bool {
        ids_distinct(self.groups())
    }

    /// An empty registry.
    pub fn new() -> (r: Self)
        ensures
            r.wf(),
            r.groups() == Seq::<(Seq<char>, Seq<(u32, T)>)>::empty(),
    {
        let r = ChildReaper { grandchildren: Vec::new() };
        assert(r.groups() =~= Seq::<(Seq<char>, Seq<(u32, T)>)>::empty());
        r
    }

    /// The position of the group with the ID `id`, if there is one.
    fn find_group(&self, id: &String) -> (r: Option<usize>)
        requires
            self.wf(),
        ensures
            match r {
                Some(g) => has_group(self.groups(), id@) && g == group_index(self.groups(), id@)
                    && g < self.groups().len(),
                None => !has_group(self.groups(), id@),
            },
    {
        let ghost gs = self.groups();
        let mut i: usize = 0;
        while i < self.grandchildren.len()
            invariant
                gs == self.groups(),
                gs.len() == self.grandchildren@.len(),
                ids_distinct(gs),
                i <= gs.len(),
                forall|j: int| 0 <= j < i ==> #[trigger] gs[j].0 != id@,
            decreases self.grandchildren.len() - i,
        {
            assert(gs[i as int].0 == self.grandchildren@[i as int].id@);
            if self.grandchildren[i].id == *id {
                proof {
                    assert(gs[i as int].0 == id@);
                    let c = group_index(gs, id@);
                    assert(0 <= c < gs.len() && gs[c].0 == id@);
                    if c != i as int {
                        if c < i as int {
                            assert(gs[c].0 != gs[i as int].0);
                        } else {
                            assert(gs[i as int].0 != gs[c].0);
                        }
                    }
                }
                return Some(i);
            }
            i = i + 1;
        }
        None
    }

    /// The last process registered under `id`, with its process ID.
    pub fn get(&self, id: &str) -> (r: Result<(u32, &T), ReaperError>)
        requires
            self.wf(),
        ensures
            match r {
                Ok((pid, child)) => children_of(self.groups(), id@).len() > 0 && children_of(
                    self.groups(),
                    id@,
                ).last() == (pid, *child),
                Err(e) => children_of(self.groups(), id@).len() == 0 && e
                    == ReaperError::ChildNotAvailable,
            },
    {
        let key = id.to_owned();
        match self.find_group(&key) {
            None => Err(ReaperError::ChildNotAvailable),
            Some(g) => {
                let group = &self.grandchildren[g];
                assert(self.groups()[g as int].1 == group.children@);
                let n = group.children.len();
                if n == 0 {
                    Err(ReaperError::ChildNotAvailable)
                } else {
                    let last = &group.children[n - 1];
                    Ok((last.0, &last.1))
                }
            },
        }
    }

    /// Register the process `pid` under `id`, after those registered before.
    pub fn register(&mut self, id: &str, pid: u32, child: T)
        requires
            old(self).wf(),
        ensures
            final(self).wf(),
            final(self).groups() == spec_register(old(self).groups(), id@, pid, child),
    {
        let key = id.to_owned();
        let ghost gs = self.groups();
        match self.find_group(&key) {
            None => {
                let mut children: Vec<(u32, T)> = Vec::new();
                children.push((pid, child));
                assert(children@ =~= seq![(pid, child)]);
                self.grandchildren.push(ChildGroup { id: key, children });
                proof {
                    let ng = self.groups();
                    assert(ng =~= gs.push((id@, seq![(pid, child)])));
                    assert forall|i: int, j: int| 0 <= i < j < ng.len() implies #[trigger] ng[i].0
                        != #[trigger] ng[j].0 by {
                        if j == gs.len() {
                            assert(ng[i].0 == gs[i].0);
                        }
                    }
                }
            },
            Some(g) => {
                let mut group = self.grandchildren.remove(g);
                group.children.push((pid, child));
                proof {
                    assert(group.id@ == id@);
                }
                self.grandchildren.insert(g, group);
                proof {
                    let ng = self.groups();
                    assert(ng =~= gs.update(g as int, (id@, gs[g as int].1.push((pid, child)))));
                }
            },
        }
    }

    /// Forget the process `pid`: its first entry, groups in order, is removed
    /// and the last process of its group takes its place.
    pub fn forget(&mut self, pid: u32)
        requires
            old(self).wf(),
        ensures
            final(self).wf(),
            final(self).groups() == spec_forget(old(self).groups(), pid),
    {
        let ghost gs = self.groups();
        let mut g: usize = 0;
        while g < self.grandchildren.len()
            invariant
                gs == self.groups(),
                gs == old(self).groups(),
                gs.len() == self.grandchildren@.len(),
                ids_distinct(gs),
                g <= gs.len(),
                forall|g2: int, k2: int| 0 <= g2 < g ==> !#[trigger] holds_pid(gs, pid, g2, k2),
            decreases self.grandchildren.len() - g,
        {
            let n = self.grandchildren[g].children.len();
            assert(gs[g as int].1 == self.grandchildren@[g as int].children@);
            let mut k: usize = 0;
            while k < n
                invariant
                    gs == self.groups(),
                    gs == old(self).groups(),
                    gs.len() == self.grandchildren@.len(),
                    g < gs.len(),
                    n == gs[g as int].1.len(),
                    k <= n,
                    ids_distinct(gs),
                    forall|g2: int, k2: int| 0 <= g2 < g ==> !#[trigger] holds_pid(gs, pid, g2, k2),
                    forall|k2: int| 0 <= k2 < k ==> !#[trigger] holds_pid(gs, pid, g as int, k2),
                decreases n - k,
            {
                assert(gs[g as int].1[k as int] == self.grandchildren@[g as int].children@[k as int]);
                if self.grandchildren[g].children[k].0 == pid {
                    proof {
                        assert(holds_pid(gs, pid, g as int, k as int));
                        assert(first_holder(gs, pid, g as int, k as int));
                        let (cg, ck) = choose|cg: int, ck: int| first_holder(gs, pid, cg, ck);
                        assert(holds_pid(gs, pid, cg, ck));
                        assert(cg == g && ck == k);
                        assert(spec_forget(gs, pid) == gs.update(
                            g as int,
                            (gs[g as int].0, swap_removed(gs[g as int].1, k as int)),
                        ));
                    }
                    let mut group = self.grandchildren.remove(g);
                    group.children.swap_remove(k);
                    self.grandchildren.insert(g, group);
                    proof {
                        let ng = self.groups();
                        assert(ng =~= gs.update(
                            g as int,
                            (gs[g as int].0, swap_removed(gs[g as int].1, k as int)),
                        ));
                        assert forall|i: int, j: int| 0 <= i < j < ng.len() implies #[trigger] ng[i].0
                            != #[trigger] ng[j].0 by {
                            assert(ng[i].0 == gs[i].0);
                            assert(ng[j].0 == gs[j].0);
                        }
                    }
                    return;
                }
                k = k + 1;
            }
            g = g + 1;
        }
        proof {
            assert forall|g2: int, k2: int| !first_holder(gs, pid, g2, k2) by {
                if 0 <= g2 < gs.len() {
                    assert(!holds_pid(gs, pid, g2, k2));
                }
            }
        }
    }

    /// The process IDs of all registered processes, groups in order.
    pub fn pids(&self) -> (v: Vec<u32>)
        ensures
            v@ == all_pids(self.groups()),
    {
        let ghost gs = self.groups();
        let mut v: Vec<u32> = Vec::new();
        let mut g: usize = 0;
        while g < self.grandchildren.len()
            invariant
                gs == self.groups(),
                gs.len() == self.grandchildren@.len(),
                g <= gs.len(),
                v@ == all_pids(gs.take(g as int)),
            decreases self.grandchildren.len() - g,
        {
            let group = &self.grandchildren[g];
            assert(gs[g as int].1 == group.children@);
            let ghost before = v@;
            let mut k: usize = 0;
            while k < group.children.len()
                invariant
                    k <= group.children@.len(),
                    v@ == before + group.children@.take(k as int).map_values(|c: (u32, T)| c.0),
                decreases group.children.len() - k,
            {
                v.push(group.children[k].0);
                assert(group.children@.take(k + 1).map_values(|c: (u32, T)| c.0) =~= group.children@.take(
                    k as int,
                ).map_values(|c: (u32, T)| c.0).push(group.children@[k as int].0));
                k = k + 1;
            }
            proof {
                assert(group.children@.take(k as int) =~= group.children@);
                assert(gs.take(g + 1).drop_last() =~= gs.take(g as int));
                assert(gs.take(g + 1).last() == gs[g as int]);
            }
            g = g + 1;
        }
        assert(gs.take(g as int) =~= gs);
        v
    }
}

/// With distinct IDs, the processes under the ID of group `i` are those of
/// group `i`.
pub proof fn lemma_children_of_group<T>(gs: Groups<T>, i: int)
    requires
        ids_distinct(gs),
        0 <= i < gs.len(),
    ensures
        has_group(gs, gs[i].0),
        group_index(gs, gs[i].0) == i,
        children_of(gs, gs[i].0) == gs[i].1,
{
    let id = gs[i].0;
    assert(gs[i].0 == id);
    let c = group_index(gs, id);
    if c != i {
        if c < i {
            assert(gs[c].0 != gs[i].0);
        } else {
            assert(gs[i].0 != gs[c].0);
        }
    }
}

/// Registering keeps the IDs distinct, puts the new process last under its
/// ID, and leaves every other ID's processes as they were.
pub proof fn lemma_register<T>(gs: Groups<T>, id: Seq<char>, pid: u32, child: T)
    requires
        ids_distinct(gs),
    ensures
        ids_distinct(spec_register(gs, id, pid, child)),
        children_of(spec_register(gs, id, pid, child), id) == children_of(gs, id).push((pid, child)),
        forall|other: Seq<char>| other != id ==> #[trigger] children_of(spec_register(gs, id, pid, child), other)
            == children_of(gs, other),
{
    let ng = spec_register(gs, id, pid, child);
    if has_group(gs, id) {
        let g = group_index(gs, id);
        lemma_children_of_group(gs, g);
        assert(ids_distinct(ng)) by {
            assert forall|i: int, j: int| 0 <= i < j < ng.len() implies #[trigger] ng[i].0
                != #[trigger] ng[j].0 by {
                assert(ng[i].0 == gs[i].0);
                assert(ng[j].0 == gs[j].0);
            }
        }
        lemma_children_of_group(ng, g);
        assert forall|other: Seq<char>| other != id implies #[trigger] children_of(ng, other)
            == children_of(gs, other) by {
            if has_group(gs, other) {
                let o = group_index(gs, other);
                lemma_children_of_group(gs, o);
                assert(o != g);
                assert(ng[o] == gs[o]);
                lemma_children_of_group(ng, o);
            } else {
                if has_group(ng, other) {
                    let o = group_index(ng, other);
                    assert(ng[o].0 == other);
                    if o != g {
                        assert(gs[o].0 == other);
                    }
                }
            }
        }
    } else {
        assert(ids_distinct(ng)) by {
            assert forall|i: int, j: int| 0 <= i < j < ng.len() implies #[trigger] ng[i].0
                != #[trigger] ng[j].0 by {
                if j == gs.len() {
                    assert(ng[i].0 == gs[i].0);
                    assert(gs[i].0 != id);
                }
            }
        }
        lemma_children_of_group(ng, gs.len() as int);
        assert(children_of(gs, id) =~= Seq::<(u32, T)>::empty());
        assert(seq![(pid, child)] =~= Seq::<(u32, T)>::empty().push((pid, child)));
        assert forall|other: Seq<char>| other != id implies #[trigger] children_of(ng, other)
            == children_of(gs, other) by {
            if has_group(gs, other) {
                let o = group_index(gs, other);
                lemma_children_of_group(gs, o);
                assert(ng[o] == gs[o]);
                lemma_children_of_group(ng, o);
            } else {
                if has_group(ng, other) {
                    let o = group_index(ng, other);
                    assert(ng[o].0 == other);
                    if o < gs.len() {
                        assert(gs[o].0 == other);
                    }
                }
            }
        }
    }
}

/// What one registers under an ID is what a lookup of that ID gives next.
pub proof fn lemma_register_then_get<T>(gs: Groups<T>, id: Seq<char>, pid: u32, child: T)
    requires
        ids_distinct(gs),
    ensures
        children_of(spec_register(gs, id, pid, child), id).len() > 0,
        children_of(spec_register(gs, id, pid, child), id).last() == (pid, child),
{
    lemma_register(gs, id, pid, child);
}

/// Forgetting a process that was registered last, and nowhere before,
/// restores what every ID holds.
pub proof fn lemma_register_then_forget<T>(gs: Groups<T>, id: Seq<char>, pid: u32, child: T)
    requires
        ids_distinct(gs),
        forall|g: int, k: int| !#[trigger] holds_pid(gs, pid, g, k),
    ensures
        ids_distinct(spec_forget(spec_register(gs, id, pid, child), pid)),
        forall|other: Seq<char>| #[trigger] children_of(
            spec_forget(spec_register(gs, id, pid, child), pid),
            other,
        ) == children_of(gs, other),
{
    lemma_register(gs, id, pid, child);
    let ng = spec_register(gs, id, pid, child);
    let g = if has_group(gs, id) {
        group_index(gs, id)
    } else {
        gs.len() as int
    };
    lemma_children_of_group(ng, g);
    let k = ng[g].1.len() - 1;
    assert(ng[g].1[k] == (pid, child));
    assert(holds_pid(ng, pid, g, k));
    assert forall|g2: int, k2: int| #[trigger] holds_pid(ng, pid, g2, k2) implies g < g2 || (g == g2
        && k <= k2) by {
        if g2 != g {
            assert(ng[g2] == gs[g2]);
            assert(holds_pid(gs, pid, g2, k2));
        } else if k2 < k {
            assert(ng[g].1[k2] == children_of(gs, id)[k2]);
            if has_group(gs, id) {
                assert(holds_pid(gs, pid, g, k2));
            }
        }
    }
    assert(first_holder(ng, pid, g, k));
    let (cg, ck) = choose|cg: int, ck: int| first_holder(ng, pid, cg, ck);
    assert(holds_pid(ng, pid, cg, ck));
    assert(cg == g && ck == k);
    let fg = spec_forget(ng, pid);
    assert(fg == ng.update(g, (ng[g].0, swap_removed(ng[g].1, k))));
    assert(swap_removed(ng[g].1, k) =~= children_of(gs, id));
    assert(ids_distinct(fg)) by {
        assert forall|i: int, j: int| 0 <= i < j < fg.len() implies #[trigger] fg[i].0
            != #[trigger] fg[j].0 by {
            assert(fg[i].0 == ng[i].0);
            assert(fg[j].0 == ng[j].0);
        }
    }
    assert forall|other: Seq<char>| #[trigger] children_of(fg, other) == children_of(gs, other) by {
        if other == id {
            assert(fg[g].0 == id);
            lemma_children_of_group(fg, g);
        } else {
            assert(children_of(ng, other) == children_of(gs, other));
            if has_group(ng, other) {
                let o = group_index(ng, other);
                lemma_children_of_group(ng, o);
                assert(o != g);
                assert(fg[o] == ng[o]);
                lemma_children_of_group(fg, o);
            } else {
                if has_group(fg, other) {
                    let o = group_index(fg, other);
                    assert(fg[o].0 == other);
                    assert(ng[o].0 == other);
                }
            }
        }
    }
}

} // verus!
