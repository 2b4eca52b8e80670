//! Out-of-memory detection for a container: where the memory cgroup of the
//! container lies, how its OOM counters are read, and what the watcher does
//! on each event it gets.

use vstd::prelude::*;
use vstd::string::{StrSliceExecFns, StringExecFns};
use vstd::utf8::{decode_utf8, valid_utf8};
use crate::lines::{lemma_line_len_bounds, line_len, next_line, spec_lines, sub_slice};
use crate::parse::{parse_unsigned, parse_unsigned_str};
use crate::paths::{join, path_join};
use crate::text::{
    contains_str, contains_text, decimal, i64_to_string, nth_field, signed_decimal, split_fields, strip_prefix, strip_prefix_str, trim_end,
    trimmed_end, u64_to_string, utf8_str,
};

verus! {

/// The mount point of the cgroup file system.
pub const CGROUP_ROOT: &'static str = "/sys/fs/cgroup";

/// A report of the OOM watcher: whether the container ran out of memory.
#[derive(Clone, Copy, Debug, PartialEq, Eq, Structural)]
pub struct OOMEvent {
    pub oom: bool,
}

/// Why a cgroup file could not be read.
#[derive(Clone, Copy, Debug, PartialEq, Eq, Structural)]
pub enum OomError {
    /// The file could not be opened.
    Unreadable,
    /// A line is not valid UTF-8.
    InvalidUtf8,
    /// An OOM counter is not an unsigned 64-bit number.
    InvalidCounter,
    /// The cgroup file holds no line.
    NoLine,
    /// A cgroup line has no subsystem field.
    NoSubsystem,
    /// A cgroup line has no path field.
    NoPath,
    /// A cgroup path does not start at the root.
    NotAbsolute,
    /// No cgroup line names the subsystem.
    NoPathFound,
}

/// The counter text of a line `oom <n>` or `oom_kill <n>`.
pub open spec fn oom_counter_text(line: Seq<char>) -> Option<Seq<char>> {
    match strip_prefix(line, "oom "@) {
        Some(rest) => Some(rest),
        None => strip_prefix(line, "oom_kill "@),
    }
}

/// What a `memory.events` file with the bytes `content` tells, compared with
/// the counter `last` seen before: the first OOM counter that differs from
/// `last`, with `true`; or `(0, false)` where every counter equals `last`;
/// or why the file could not be read, where that comes first.
pub open spec fn spec_check_for_oom(content: Seq<u8>, last: u64) -> Result<(u64, bool), OomError>
    decreases content.len(),
{
    if content.len() == 0 {
        Ok((0u64, false))
    } else {
        let n = line_len(content);
        proof {
            lemma_line_len_bounds(content);
        }
        let line = content.take(n as int);
        let rest = content.skip(n as int);
        if !valid_utf8(line) {
            Err(OomError::InvalidUtf8)
        } else {
            match oom_counter_text(decode_utf8(line)) {
                None => spec_check_for_oom(rest, last),
                Some(text) => match parse_unsigned(trimmed_end(text), u64::MAX as nat) {
                    None => Err(OomError::InvalidCounter),
                    Some(v) => if v != last {
                        Ok((v as u64, true))
                    } else {
                        spec_check_for_oom(rest, last)
                    },
                },
            }
        }
    }
}

/// The check of a `memory.events` file that may not have been readable.
pub open spec fn spec_check_events(content: Option<Seq<u8>>, last: u64) -> Result<(u64, bool), OomError> {
    match content {
        Some(c) => spec_check_for_oom(c, last),
        None => Err(OomError::Unreadable),
    }
}

/// Read the OOM counters of a `memory.events` file with the bytes
/// `content`, against the counter `last_counter` seen before.
pub fn check_for_oom(content: &[u8], last_counter: u64) -> (r: Result<(u64, bool), OomError>)
    ensures
        r == spec_check_for_oom(content@, last_counter),
{
    let mut i: usize = 0;
    assert(content@.skip(0) =~= content@);
    while i < content.len()
        invariant
            i <= content.len(),
            spec_check_for_oom(content@, last_counter) == spec_check_for_oom(
                content@.skip(i as int),
                last_counter,
            ),
        decreases content.len() - i,
    {
        let (n, _) = next_line(content, i);
        proof {
            lemma_line_len_bounds(content@.skip(i as int));
            assert(content@.skip(i as int).take(n as int) =~= content@.subrange(i as int, i + n));
            assert(content@.skip(i as int).skip(n as int) =~= content@.skip(i + n));
        }
        let line = sub_slice(content, i, n);
        match utf8_str(line) {
            None => {
                return Err(OomError::InvalidUtf8);
            },
            Some(text) => {
                let counter = match strip_prefix_str(text, "oom ") {
                    Some(rest) => Some(rest),
                    None => strip_prefix_str(text, "oom_kill "),
                };
                if let Some(t) = counter {
                    match parse_unsigned_str(trim_end(t), u64::MAX) {
                        None => {
                            return Err(OomError::InvalidCounter);
                        },
                        Some(v) => {
                            if v != last_counter {
                                return Ok((v, true));
                            }
                        },
                    }
                }
            },
        }
        i = i + n;
    }
    Ok((0, false))
}

/// The view of an optional byte slice.
pub open spec fn opt_bytes(content: Option<&[u8]>) -> Option<Seq<u8>> {
    match content {
        Some(c) => Some(c@),
        None => None,
    }
}

/// The check of a `memory.events` file, `None` where it could not be read.
fn check_events(content: Option<&[u8]>, last_counter: u64) -> (r: Result<(u64, bool), OomError>)
    ensures
        r == spec_check_events(opt_bytes(content), last_counter),
{
    match content {
        Some(c) => check_for_oom(c, last_counter),
        None => Err(OomError::Unreadable),
    }
}

/// The OOM counter a watcher starts from: the first non-zero counter of the
/// container's `memory.events`, or 0 where it holds none or cannot be read.
pub open spec fn spec_initial_counter(content: Option<Seq<u8>>) -> u64 {
    match spec_check_events(content, 0) {
        Ok((counter, _)) => counter,
        Err(_) => 0,
    }
}

/// The baseline OOM counter of a container, from its `memory.events`.
pub fn initial_oom_counter(content: Option<&[u8]>) -> (c: u64)
    ensures
        c == spec_initial_counter(opt_bytes(content)),
{
    match check_events(content, 0) {
        Ok((counter, _)) => counter,
        Err(_) => 0,
    }
}

/// The cgroup path of a subsystem from a cgroup line's fields: the path
/// field without its leading `/` and trailing whitespace, joined to `base`.
pub open spec fn cgroup_dir(base: Seq<char>, path_field: Seq<char>) -> Result<Seq<char>, OomError> {
    match strip_prefix(path_field, "/"@) {
        None => Err(OomError::NotAbsolute),
        Some(p) => Ok(path_join(base, trimmed_end(p))),
    }
}

/// The cgroup v2 directory of a process, from the bytes `content` of its
/// `/proc/<pid>/cgroup`: the path in the third field of the first line,
/// under the cgroup mount point.
pub open spec fn spec_cgroup_v2_path(content: Seq<u8>) -> Result<Seq<char>, OomError> {
    if content.len() == 0 {
        Err(OomError::NoLine)
    } else {
        let line = content.take(line_len(content) as int);
        if !valid_utf8(line) {
            Err(OomError::InvalidUtf8)
        } else {
            let fields = split_fields(decode_utf8(line), ':');
            if fields.len() < 3 {
                Err(OomError::NoPath)
            } else {
                cgroup_dir(CGROUP_ROOT@, fields[2])
            }
        }
    }
}

/// The cgroup v1 directory of `subsystem` for a process, from the bytes
/// `content` of its `/proc/<pid>/cgroup`: the path of the first line whose
/// second field names the subsystem or is empty, under the subsystem's
/// hierarchy; each line before it must have both fields.
pub open spec fn spec_cgroup_v1_path(content: Seq<u8>, subsystem: Seq<char>) -> Result<Seq<char>, OomError>
    decreases content.len(),
{
    if content.len() == 0 {
        Err(OomError::NoPathFound)
    } else {
        let n = line_len(content);
        proof {
            lemma_line_len_bounds(content);
        }
        let line = content.take(n as int);
        if !valid_utf8(line) {
            Err(OomError::InvalidUtf8)
        } else {
            let fields = split_fields(decode_utf8(line), ':');
            if fields.len() < 2 {
                Err(OomError::NoSubsystem)
            } else if fields.len() < 3 {
                Err(OomError::NoPath)
            } else {
                match cgroup_dir(path_join(CGROUP_ROOT@, subsystem), fields[2]) {
                    Err(e) => Err(e),
                    Ok(dir) => if contains_text(fields[1], subsystem) || fields[1].len() == 0 {
                        Ok(dir)
                    } else {
                        spec_cgroup_v1_path(content.skip(n as int), subsystem)
                    },
                }
            }
        }
    }
}

/// The directory for the path field `field` of a cgroup line under `base`.
fn cgroup_dir_of(base: &str, field: &str) -> (r: Result<String, OomError>)
    ensures
        match r {
            Ok(d) => cgroup_dir(base@, field@) == Ok::<Seq<char>, OomError>(d@),
            Err(e) => cgroup_dir(base@, field@) == Err::<Seq<char>, OomError>(e),
        },
{
    match strip_prefix_str(field, "/") {
        None => Err(OomError::NotAbsolute),
        Some(p) => Ok(join(base, trim_end(p))),
    }
}

/// The cgroup v2 directory of a process, from its `/proc/<pid>/cgroup`.
pub fn cgroup_v2_path(content: &[u8]) -> (r: Result<String, OomError>)
    ensures
        match r {
            Ok(d) => spec_cgroup_v2_path(content@) == Ok::<Seq<char>, OomError>(d@),
            Err(e) => spec_cgroup_v2_path(content@) == Err::<Seq<char>, OomError>(e),
        },
{
    if content.len() == 0 {
        return Err(OomError::NoLine);
    }
    let (n, _) = next_line(content, 0);
    proof {
        assert(content@.skip(0) =~= content@);
        lemma_line_len_bounds(content@);
        assert(content@.subrange(0, n as int) =~= content@.take(n as int));
    }
    let line = sub_slice(content, 0, n);
    match utf8_str(line) {
        None => Err(OomError::InvalidUtf8),
        Some(text) => match nth_field(text, ':', 2) {
            None => Err(OomError::NoPath),
            Some(field) => cgroup_dir_of(CGROUP_ROOT, field),
        },
    }
}

/// The cgroup v1 directory of `subsystem` for a process, from its
/// `/proc/<pid>/cgroup`.
pub fn cgroup_v1_path(content: &[u8], subsystem: &str) -> (r: Result<String, OomError>)
    ensures
        match r {
            Ok(d) => spec_cgroup_v1_path(content@, subsystem@) == Ok::<Seq<char>, OomError>(d@),
            Err(e) => spec_cgroup_v1_path(content@, subsystem@) == Err::<Seq<char>, OomError>(e),
        },
{
    let base = join(CGROUP_ROOT, subsystem);
    let mut i: usize = 0;
    assert(content@.skip(0) =~= content@);
    while i < content.len()
        invariant
            i <= content.len(),
            base@ == path_join(CGROUP_ROOT@, subsystem@),
            spec_cgroup_v1_path(content@, subsystem@) == spec_cgroup_v1_path(
                content@.skip(i as int),
                subsystem@,
            ),
        decreases content.len() - i,
    {
        let (n, _) = next_line(content, i);
        proof {
            lemma_line_len_bounds(content@.skip(i as int));
            assert(content@.skip(i as int).take(n as int) =~= content@.subrange(i as int, i + n));
            assert(content@.skip(i as int).skip(n as int) =~= content@.skip(i + n));
        }
        let line = sub_slice(content, i, n);
        let text = match utf8_str(line) {
            None => {
                return Err(OomError::InvalidUtf8);
            },
            Some(t) => t,
        };
        let system = match nth_field(text, ':', 1) {
            None => {
                return Err(OomError::NoSubsystem);
            },
            Some(f) => f,
        };
        let field = match nth_field(text, ':', 2) {
            None => {
                return Err(OomError::NoPath);
            },
            Some(f) => f,
        };
        let dir = match cgroup_dir_of(base.as_str(), field) {
            Err(e) => {
                return Err(e);
            },
            Ok(d) => d,
        };
        if contains_str(system, subsystem) || system.unicode_len() == 0 {
            return Ok(dir);
        }
        i = i + n;
    }
    Err(OomError::NoPathFound)
}

/// The path of the cgroup file of a process: `/proc/<pid>/cgroup`.
pub open spec fn spec_proc_cgroup_path(pid: u32) -> Seq<char> {
    path_join(path_join("/proc"@, decimal(pid as nat)), "cgroup"@)
}

/// The path of the cgroup file of the process `pid`.
pub fn proc_cgroup_path(pid: u32) -> (p: String)
    ensures
        p@ == spec_proc_cgroup_path(pid),
{
    let id = u64_to_string(pid as u64);
    let dir = join("/proc", id.as_str());
    join(dir.as_str(), "cgroup")
}

/// The `memory.events` file of a cgroup v2 directory.
pub fn memory_events_path(dir: &str) -> (p: String)
    ensures
        p@ == path_join(dir@, "memory.events"@),
{
    join(dir, "memory.events")
}

/// The OOM control file and the event control file of a cgroup v1 memory
/// directory.
pub fn oom_control_paths(dir: &str) -> (p: (String, String))
    ensures
        p.0@ == path_join(dir@, "memory.oom_control"@),
        p.1@ == path_join(dir@, "cgroup.event_control"@),
{
    (join(dir, "memory.oom_control"), join(dir, "cgroup.event_control"))
}

/// The line that registers the event file descriptor `event_fd` for OOM
/// notifications of the control file open as `oom_fd`: `<event_fd> <oom_fd>`.
pub fn event_control_line(event_fd: i32, oom_fd: i32) -> (l: String)
    ensures
        l@ == signed_decimal(event_fd as int) + " "@ + signed_decimal(oom_fd as int),
{
    let mut l = i64_to_string(event_fd as i64);
    l.append(" ");
    let o = i64_to_string(oom_fd as i64);
    l.append(o.as_str());
    l
}

/// What the file watcher of a `memory.events` file reports.
#[derive(Clone, Copy, Debug, PartialEq, Eq, Structural)]
pub enum WatchEvent {
    /// The container exited, which cancels the watch.
    Cancelled,
    /// The file was opened, which tells nothing.
    AccessOpen,
    /// The file was removed.
    Removed,
    /// Any other change of the file.
    Changed,
    /// The watcher failed.
    Failed,
}

/// Whether the OOM watcher goes on after a step.
#[derive(Clone, Copy, Debug, PartialEq, Eq, Structural)]
pub enum StopRule {
    /// Wait for the next event.
    Continue,
    /// Stop watching.
    Stop,
    /// Stop watching once the report was sent; wait for the next event where
    /// it could not be sent.
    StopWhenReported,
}

/// What the OOM watcher does on one event: it writes the OOM files first,
/// where the step says so, then sends the report, then stops or goes on.
#[derive(Clone, Copy, Debug, PartialEq, Eq, Structural)]
pub struct OomStep {
    /// The OOM counter to compare the next reading with.
    pub last_counter: u64,
    /// Create the OOM exit files of the container.
    pub write_oom_files: bool,
    /// The report to send, if any.
    pub report: Option<OOMEvent>,
    /// Whether to go on.
    pub stop: StopRule,
}

/// The OOM counter that a check found, if it found one.
pub open spec fn found_counter(r: Result<(u64, bool), OomError>) -> Option<u64> {
    match r {
        Ok((counter, true)) => Some(counter),
        _ => None,
    }
}

/// The last check of a cgroup v2 OOM watcher whose last counter is `last`,
/// when it is cancelled: a new counter in the container's `memory.events`,
/// or, where that file cannot be read, any counter in the parent's.
pub open spec fn spec_last_check(last: u64, child: Option<Seq<u8>>, parent: Option<Seq<u8>>) -> bool {
    match spec_check_events(child, last) {
        Ok((_, oom)) => oom,
        Err(_) => match spec_check_events(parent, 0) {
            Ok((_, oom)) => oom,
            Err(_) => false,
        },
    }
}

/// The step of a cgroup v2 OOM watcher whose last counter is `last` on
/// `event`, given the `memory.events` files of the container (`child`) and
/// of its parent cgroup (`parent`), `None` where one could not be read, and
/// whether the container's file no longer exists.
///
/// On cancellation the watcher checks one last time, the parent only where
/// the container's file cannot be read, and reports what it found. On a
/// change it looks for a new counter in the container's file, then for any
/// counter in the parent's; it reports an OOM where one is found, or where
/// the container's file is gone, which it takes for a removal race.
pub open spec fn spec_oom_v2_step(
    last: u64,
    event: WatchEvent,
    child: Option<Seq<u8>>,
    parent: Option<Seq<u8>>,
    child_missing: bool,
) -> OomStep {
    match event {
        WatchEvent::Cancelled => {
            let found = spec_last_check(last, child, parent);
            OomStep {
                last_counter: last,
                write_oom_files: found,
                report: Some(OOMEvent { oom: found }),
                stop: StopRule::Stop,
            }
        },
        WatchEvent::AccessOpen => OomStep {
            last_counter: last,
            write_oom_files: false,
            report: None,
            stop: StopRule::Continue,
        },
        WatchEvent::Removed | WatchEvent::Failed => OomStep {
            last_counter: last,
            write_oom_files: false,
            report: Some(OOMEvent { oom: false }),
            stop: StopRule::Stop,
        },
        WatchEvent::Changed => {
            let hit = match found_counter(spec_check_events(child, last)) {
                Some(c) => Some(c),
                None => found_counter(spec_check_events(parent, 0)),
            };
            match hit {
                Some(c) => OomStep {
                    last_counter: c,
                    write_oom_files: true,
                    report: Some(OOMEvent { oom: true }),
                    stop: StopRule::StopWhenReported,
                },
                None => if child_missing {
                    OomStep {
                        last_counter: 1,
                        write_oom_files: true,
                        report: Some(OOMEvent { oom: true }),
                        stop: StopRule::StopWhenReported,
                    }
                } else {
                    OomStep {
                        last_counter: last,
                        write_oom_files: false,
                        report: None,
                        stop: StopRule::Continue,
                    }
                },
            }
        },
    }
}

/// The step of a cgroup v2 OOM watcher on `event`.
pub fn oom_v2_step(
    last_counter: u64,
    event: WatchEvent,
    child: Option<&[u8]>,
    parent: Option<&[u8]>,
    child_missing: bool,
) -> (s: OomStep)
    ensures
        s == spec_oom_v2_step(last_counter, event, opt_bytes(child), opt_bytes(parent), child_missing),
        event is Removed || event is Failed ==> s.report == Some(OOMEvent { oom: false }) && s.stop
            == StopRule::Stop && !s.write_oom_files,
        event is AccessOpen ==> s.report is None && s.stop == StopRule::Continue && s.last_counter == last_counter,
        event is Cancelled ==> s.stop == StopRule::Stop && s.report == Some(
            OOMEvent { oom: s.write_oom_files },
        ) && s.write_oom_files == match spec_check_events(opt_bytes(child), last_counter) {
            Ok((_, found)) => found,
            Err(_) => spec_check_events(opt_bytes(parent), 0) matches Ok((_, found)) && found,
        },
        event is Changed ==> match spec_check_events(opt_bytes(child), last_counter) {
            Ok((c, true)) => s.report == Some(OOMEvent { oom: true }) && s.last_counter == c && s.write_oom_files,
            _ => match spec_check_events(opt_bytes(parent), 0) {
                Ok((c, true)) => s.report == Some(OOMEvent { oom: true }) && s.last_counter == c
                    && s.write_oom_files,
                _ => (s.report is Some <==> child_missing) && (s.report is Some ==> s.report == Some(
                    OOMEvent { oom: true },
                )),
            },
        },
{
    match event {
        WatchEvent::Cancelled => {
            let found = match check_events(child, last_counter) {
                Ok((_, oom)) => oom,
                Err(_) => match check_events(parent, 0) {
                    Ok((_, oom)) => oom,
                    Err(_) => false,
                },
            };
            OomStep {
                last_counter,
                write_oom_files: found,
                report: Some(OOMEvent { oom: found }),
                stop: StopRule::Stop,
            }
        },
        WatchEvent::AccessOpen => OomStep {
            last_counter,
            write_oom_files: false,
            report: None,
            stop: StopRule::Continue,
        },
        WatchEvent::Removed | WatchEvent::Failed => OomStep {
            last_counter,
            write_oom_files: false,
            report: Some(OOMEvent { oom: false }),
            stop: StopRule::Stop,
        },
        WatchEvent::Changed => {
            let hit = match check_events(child, last_counter) {
                Ok((c, true)) => Some(c),
                _ => match check_events(parent, 0) {
                    Ok((c, true)) => Some(c),
                    _ => None,
                },
            };
            match hit {
                Some(c) => OomStep {
                    last_counter: c,
                    write_oom_files: true,
                    report: Some(OOMEvent { oom: true }),
                    stop: StopRule::StopWhenReported,
                },
                None => if child_missing {
                    OomStep {
                        last_counter: 1,
                        write_oom_files: true,
                        report: Some(OOMEvent { oom: true }),
                        stop: StopRule::StopWhenReported,
                    }
                } else {
                    OomStep {
                        last_counter,
                        write_oom_files: false,
                        report: None,
                        stop: StopRule::Continue,
                    }
                },
            }
        },
    }
}

/// The step of a cgroup v1 OOM watcher, which waits for one notification:
/// `notified` where the OOM event file descriptor fired, `false` where the
/// watch was cancelled first. It stops either way.
pub fn oom_v1_step(notified: bool) -> (s: OomStep)
    ensures
        s == (OomStep {
            last_counter: 0,
            write_oom_files: notified,
            report: Some(OOMEvent { oom: notified }),
            stop: StopRule::Stop,
        }),
{
    OomStep {
        last_counter: 0,
        write_oom_files: notified,
        report: Some(OOMEvent { oom: notified }),
        stop: StopRule::Stop,
    }
}

/// The OOM watcher writes the OOM files exactly when it reports an OOM, and
/// it never stops without a report: whoever waits for its report gets one.
pub proof fn lemma_oom_step_reports(
    last: u64,
    event: WatchEvent,
    child: Option<Seq<u8>>,
    parent: Option<Seq<u8>>,
    child_missing: bool,
)
    ensures
        ({
            let s = spec_oom_v2_step(last, event, child, parent, child_missing);
            &&& s.write_oom_files <==> s.report == Some(OOMEvent { oom: true })
            &&& s.stop != StopRule::Continue <==> s.report.is_some()
        }),
{
}

/// A watch that goes on keeps its counter; a counter that changes on a
/// change event differs from the one before, unless the file is gone.
pub proof fn lemma_oom_counter_moves(
    last: u64,
    event: WatchEvent,
    child: Option<Seq<u8>>,
    parent: Option<Seq<u8>>,
    child_missing: bool,
)
    ensures
        ({
            let s = spec_oom_v2_step(last, event, child, parent, child_missing);
            &&& s.stop == StopRule::Continue ==> s.last_counter == last
            &&& (event == WatchEvent::Changed && s.report is Some && !child_missing
                && found_counter(spec_check_events(child, last)) is Some) ==> s.last_counter != last
        }),
{
    lemma_check_finds_new(child, last);
}

/// A counter found in a check differs from the counter checked against.
pub proof fn lemma_check_finds_new(content: Option<Seq<u8>>, last: u64)
    ensures
        found_counter(spec_check_events(content, last)) matches Some(c) ==> c != last,
{
    if let Some(c) = content {
        lemma_check_for_oom_new(c, last);
    }
}

/// A counter that the check of `content` reports differs from `last`.
pub proof fn lemma_check_for_oom_new(content: Seq<u8>, last: u64)
    ensures
        spec_check_for_oom(content, last) matches Ok((c, true)) ==> c != last,
        spec_check_for_oom(content, last) matches Ok((c, false)) ==> c == 0,
    decreases content.len(),
{
    if content.len() > 0 {
        lemma_line_len_bounds(content);
        lemma_check_for_oom_new(content.skip(line_len(content) as int), last);
    }
}

/// Every line of the `memory.events` bytes `content` is valid UTF-8, and
/// every OOM counter in it has the value `v`.
pub open spec fn counters_all(content: Seq<u8>, v: u64) -> bool
    decreases content.len(),
{
    if content.len() == 0 {
        true
    } else {
        let n = line_len(content);
        proof {
            lemma_line_len_bounds(content);
        }
        let line = content.take(n as int);
        &&& valid_utf8(line)
        &&& match oom_counter_text(decode_utf8(line)) {
            None => true,
            Some(text) => parse_unsigned(trimmed_end(text), u64::MAX as nat) == Some(v as nat),
        }
        &&& counters_all(content.skip(n as int), v)
    }
}

/// The bytes `content` hold an OOM counter line.
pub open spec fn has_counter(content: Seq<u8>) -> bool
    decreases content.len(),
{
    if content.len() == 0 {
        false
    } else {
        let n = line_len(content);
        proof {
            lemma_line_len_bounds(content);
        }
        oom_counter_text(decode_utf8(content.take(n as int))) is Some || has_counter(
            content.skip(n as int),
        )
    }
}

/// Where every counter has the value `v`, a check against `x` finds `v`
/// exactly when there is a counter and `x` differs from `v`.
pub proof fn lemma_check_uniform(content: Seq<u8>, v: u64, x: u64)
    requires
        counters_all(content, v),
    ensures
        spec_check_for_oom(content, x) == (if has_counter(content) && x != v {
            Ok::<(u64, bool), OomError>((v, true))
        } else {
            Ok::<(u64, bool), OomError>((0u64, false))
        }),
    decreases content.len(),
{
    if content.len() > 0 {
        lemma_line_len_bounds(content);
        let n = line_len(content);
        lemma_check_uniform(content.skip(n as int), v, x);
    }
}

/// The watcher only reports OOMs that happen while it watches: where every
/// counter of the container's `memory.events` has one value, checking the
/// file against the baseline read from it at the start reports no OOM.
pub proof fn lemma_baseline_reports_nothing(content: Seq<u8>, v: u64)
    requires
        counters_all(content, v),
    ensures
        spec_check_for_oom(content, spec_initial_counter(Some(content))) == Ok::<(u64, bool), OomError>(
            (0u64, false),
        ),
{
    lemma_check_uniform(content, v, 0);
    lemma_check_uniform(content, v, spec_initial_counter(Some(content)));
}

/// The steps of a cgroup v2 OOM watcher that starts from the counter
/// `last`, on the inputs in order: each is an event, the `memory.events`
/// bytes of the container and of its parent cgroup (`None` where one could
/// not be read), whether the container's file is gone, and whether the
/// report of the step, if it has one, could be sent. The watch ends with the
/// first step that stops it, or with the inputs.
pub open spec fn oom_v2_run(
    last: u64,
    inputs: Seq<(WatchEvent, Option<Seq<u8>>, Option<Seq<u8>>, bool, bool)>,
) -> Seq<OomStep>
    decreases inputs.len(),
{
    if inputs.len() == 0 {
        Seq::empty()
    } else {
        let (event, child, parent, missing, sent) = inputs[0];
        let s = spec_oom_v2_step(last, event, child, parent, missing);
        if s.stop == StopRule::Continue || (s.stop == StopRule::StopWhenReported && !sent) {
            seq![s] + oom_v2_run(s.last_counter, inputs.drop_first())
        } else {
            seq![s]
        }
    }
}

/// A whole watch that sees no OOM in the file events and is then cancelled:
/// it runs to the cancellation, reports nothing before it, keeps the
/// baseline counter throughout, and ends with exactly one report, whose OOM
/// flag is the result of the last check against the baseline; it writes the
/// OOM files exactly when that flag is set.
pub proof fn lemma_oom_run_reports_once_on_cancel(
    base: u64,
    inputs: Seq<(WatchEvent, Option<Seq<u8>>, Option<Seq<u8>>, bool, bool)>,
)
    requires
        inputs.len() > 0,
        inputs.last().0 == WatchEvent::Cancelled,
        forall|i: int|
            0 <= i < inputs.len() - 1 ==> spec_oom_v2_step(
                base,
                (#[trigger] inputs[i]).0,
                inputs[i].1,
                inputs[i].2,
                inputs[i].3,
            ).report is None,
    ensures
        ({
            let run = oom_v2_run(base, inputs);
            let found = spec_last_check(base, inputs.last().1, inputs.last().2);
            &&& run.len() == inputs.len()
            &&& forall|i: int|
                0 <= i < run.len() - 1 ==> (#[trigger] run[i]).report is None && !run[i].write_oom_files
                    && run[i].last_counter == base
            &&& run.last().report == Some(OOMEvent { oom: found })
            &&& run.last().write_oom_files == found
            &&& run.last().stop == StopRule::Stop
        }),
    decreases inputs.len(),
{
    let (event, child, parent, missing, sent) = inputs[0];
    let s = spec_oom_v2_step(base, event, child, parent, missing);
    lemma_oom_step_reports(base, event, child, parent, missing);
    lemma_oom_counter_moves(base, event, child, parent, missing);
    if inputs.len() > 1 {
        assert(inputs[0] == inputs[0]);
        assert(s.report is None);
        let rest = inputs.drop_first();
        assert forall|i: int| 0 <= i < rest.len() - 1 implies spec_oom_v2_step(
            base,
            (#[trigger] rest[i]).0,
            rest[i].1,
            rest[i].2,
            rest[i].3,
        ).report is None by {
            assert(rest[i] == inputs[i + 1]);
        }
        assert(rest.last() == inputs.last());
        lemma_oom_run_reports_once_on_cancel(base, rest);
        let run = oom_v2_run(base, inputs);
        let tail = oom_v2_run(base, rest);
        assert(run == seq![s] + tail);
        assert forall|i: int| 0 <= i < run.len() - 1 implies (#[trigger] run[i]).report is None
            && !run[i].write_oom_files && run[i].last_counter == base by {
            if i > 0 {
                assert(run[i] == tail[i - 1]);
            }
        }
    }
}

/// A line of `memory.events` that a check against `last` passes over: it is
/// valid UTF-8, and it holds no OOM counter or the counter `last`.
pub open spec fn passes_line(line: Seq<u8>, last: u64) -> bool {
    valid_utf8(line) && match oom_counter_text(decode_utf8(line)) {
        None => true,
        Some(text) => parse_unsigned(trimmed_end(text), u64::MAX as nat) == Some(last as nat),
    }
}

/// The OOM counter of a line: the number of a valid UTF-8 line `oom N` or
/// `oom_kill N`, where it is an unsigned 64-bit number.
pub open spec fn line_counter(line: Seq<u8>) -> Option<nat> {
    if valid_utf8(line) {
        match oom_counter_text(decode_utf8(line)) {
            Some(text) => parse_unsigned(trimmed_end(text), u64::MAX as nat),
            None => None,
        }
    } else {
        None
    }
}

/// The lines before `k` all pass a check against `last`.
pub open spec fn passes_before(lines: Seq<Seq<u8>>, k: int, last: u64) -> bool {
    forall|j: int| 0 <= j < k ==> passes_line(#[trigger] lines[j], last)
}

/// The check of a `memory.events` file stops at its first line, in file
/// order, that it does not pass over: there it reports the line's counter
/// where the line has one (it differs from `last`), and fails otherwise;
/// where it passes over every line, it finds nothing.
pub proof fn lemma_check_first_match(content: Seq<u8>, last: u64)
    ensures
        ({
            let lines = spec_lines(content);
            &&& passes_before(lines, lines.len() as int, last) ==> spec_check_for_oom(content, last)
                == Ok::<(u64, bool), OomError>((0u64, false))
            &&& forall|k: int|
                0 <= k < lines.len() && #[trigger] passes_before(lines, k, last) && !passes_line(lines[k], last)
                    ==> match line_counter(lines[k]) {
                    Some(n) => n != last && spec_check_for_oom(content, last) == Ok::<(u64, bool), OomError>(
                        (n as u64, true),
                    ),
                    None => spec_check_for_oom(content, last) is Err,
                }
        }),
    decreases content.len(),
{
    if content.len() > 0 {
        lemma_line_len_bounds(content);
        let n = line_len(content);
        let line = content.take(n as int);
        let rest = content.skip(n as int);
        lemma_check_first_match(rest, last);
        let lines = spec_lines(content);
        let rest_lines = spec_lines(rest);
        assert(lines == seq![line] + rest_lines);
        assert(lines[0] == line);
        if passes_line(line, last) {
            assert(spec_check_for_oom(content, last) == spec_check_for_oom(rest, last));
        }
        if passes_before(lines, lines.len() as int, last) {
            assert(passes_line(lines[0], last));
            assert forall|j: int| 0 <= j < rest_lines.len() implies passes_line(#[trigger] rest_lines[j], last) by {
                assert(lines[j + 1] == rest_lines[j]);
            }
            assert(passes_before(rest_lines, rest_lines.len() as int, last));
        }
        assert forall|k: int|
            0 <= k < lines.len() && #[trigger] passes_before(lines, k, last) && !passes_line(lines[k], last)
                implies match line_counter(lines[k]) {
                Some(n) => n != last && spec_check_for_oom(content, last) == Ok::<(u64, bool), OomError>(
                    (n as u64, true),
                ),
                None => spec_check_for_oom(content, last) is Err,
            } by {
            if k > 0 {
                assert(passes_line(lines[0], last));
                assert(lines[k] == rest_lines[k - 1]);
                assert forall|j: int| 0 <= j < k - 1 implies passes_line(#[trigger] rest_lines[j], last) by {
                    assert(lines[j + 1] == rest_lines[j]);
                    assert(passes_line(lines[j + 1], last));
                }
                assert(passes_before(rest_lines, k - 1, last));
            }
        }
    }
}

} // verus!
