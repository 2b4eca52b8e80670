//! Container log records in the CRI format: one record per line of output,
//! `TIMESTAMP STREAM TAG CONTENT`, where the tag `F` marks a full line and
//! `P` a partial one, and log rotation by size.

use vstd::prelude::*;
use std::time::Instant;
use crate::clock::{clock_elapsed_ms, clock_start, lemma_rfc3339_bytes, rfc3339_bytes, rfc3339_now};
use crate::container_io::{pipe_str, Pipe};
use crate::lines::{
    sub_slice,
    flatten_bytes, lemma_first_line_shape, lemma_line_len_bounds, lemma_lines_flatten,
    lemma_spec_lines_unfold, line_len, next_line, no_newline, spec_lines, NEWLINE,
};

verus! {

/// The bytes that separate the timestamp from the tag: ` stdout ` or ` stderr `.
pub open spec fn pipe_tag(pipe: Pipe) -> Seq<u8> {
    match pipe {
        Pipe::StdOut => seq![32u8, 115, 116, 100, 111, 117, 116, 32],
        Pipe::StdErr => seq![32u8, 115, 116, 100, 101, 114, 114, 32],
    }
}

/// The tag of a record: `P ` for a partial line, `F ` for a full one.
pub open spec fn line_tag(partial: bool) -> Seq<u8> {
    if partial {
        seq![80u8, 32]
    } else {
        seq![70u8, 32]
    }
}

/// The record that logs one line: timestamp, stream, tag, the line itself,
/// and a newline where the line had none.
pub open spec fn cri_record(timestamp: Seq<u8>, pipe: Pipe, line: Seq<u8>, partial: bool) -> Seq<u8> {
    timestamp + pipe_tag(pipe) + line_tag(partial) + line + (if partial {
        seq![NEWLINE]
    } else {
        Seq::empty()
    })
}

/// A record is the timestamp, a space, the name of the stream, a space, `P`
/// for a partial line or `F` for a full one, a space, and the line, ended by
/// a newline that a partial line lacks.
pub proof fn lemma_cri_record_format(timestamp: Seq<u8>, pipe: Pipe, line: Seq<u8>, partial: bool)
    ensures
        cri_record(timestamp, pipe, line, partial) == timestamp + seq![' ' as u8] + pipe_str(pipe).map_values(
            |c: char| c as u8,
        ) + seq![' ' as u8, if partial { 'P' as u8 } else { 'F' as u8 }, ' ' as u8] + line + if partial {
            seq!['\n' as u8]
        } else {
            Seq::<u8>::empty()
        },
{
    reveal_strlit("stdout");
    reveal_strlit("stderr");
    assert(pipe_tag(pipe) =~= seq![' ' as u8] + pipe_str(pipe).map_values(|c: char| c as u8) + seq![' ' as u8]);
    assert(cri_record(timestamp, pipe, line, partial) =~= timestamp + seq![' ' as u8] + pipe_str(pipe).map_values(
        |c: char| c as u8,
    ) + seq![' ' as u8, if partial { 'P' as u8 } else { 'F' as u8 }, ' ' as u8] + line + if partial {
        seq!['\n' as u8]
    } else {
        Seq::<u8>::empty()
    });
}

/// Whether the log must be reopened before a record of `len` bytes is
/// written, and the byte count of the log file once it is: the log is
/// reopened when the count would overflow or would exceed the maximum log
/// size, and then holds just the record.
pub open spec fn cri_account(bytes_written: usize, len: nat, max_log_size: Option<usize>) -> (bool, usize) {
    let sum = bytes_written + len;
    let exceeds = match max_log_size {
        Some(max) => sum > max,
        None => false,
    };
    if sum > usize::MAX || exceeds {
        (true, len as usize)
    } else {
        (false, sum as usize)
    }
}

/// One step of writing container output to a CRI log.
pub struct CriWriteOp {
    /// Reopen (truncate) the log file before writing the record.
    pub reopen: bool,
    /// The record to append to the log file.
    pub record: Vec<u8>,
    /// The byte count of the log once the record is written.
    pub bytes_written: usize,
}

impl CriWriteOp {
    pub open spec fn view(&self) -> (bool, Seq<u8>, usize) {
        (self.reopen, self.record@, self.bytes_written)
    }
}

/// The steps that write `data` from `pipe` to a CRI log whose byte count is
/// `bytes_written`: one per line of `data`, in order.
pub open spec fn spec_cri_plan(
    timestamp: Seq<u8>,
    pipe: Pipe,
    data: Seq<u8>,
    bytes_written: usize,
    max_log_size: Option<usize>,
) -> Seq<(bool, Seq<u8>, usize)>
    decreases data.len(),
{
    if data.len() == 0 {
        Seq::empty()
    } else {
        let n = line_len(data);
        proof {
            lemma_line_len_bounds(data);
        }
        let line = data.take(n as int);
        let record = cri_record(timestamp, pipe, line, no_newline(line));
        let (reopen, count) = cri_account(bytes_written, record.len(), max_log_size);
        seq![(reopen, record, count)] + spec_cri_plan(timestamp, pipe, data.skip(n as int), count, max_log_size)
    }
}

/// The bytes ` stdout ` or ` stderr ` for a pipe.
pub fn pipe_tag_bytes(pipe: Pipe) -> (tag: Vec<u8>)
    ensures
        tag@ == pipe_tag(pipe),
{
    let tag: Vec<u8> = match pipe {
        Pipe::StdOut => vec![32u8, 115, 116, 100, 111, 117, 116, 32],
        Pipe::StdErr => vec![32u8, 115, 116, 100, 101, 114, 114, 32],
    };
    assert(tag@ =~= pipe_tag(pipe));
    tag
}

/// Append `src` to `dst`.
pub fn append_bytes(dst: &mut Vec<u8>, src: &[u8])
    ensures
        final(dst)@ == old(dst)@ + src@,
{
    let mut i: usize = 0;
    while i < src.len()
        invariant
            i <= src.len(),
            dst@ == old(dst)@ + src@.take(i as int),
        decreases src.len() - i,
    {
        dst.push(src[i]);
        assert(src@.take(i + 1) =~= src@.take(i as int).push(src@[i as int]));
        i = i + 1;
    }
    assert(src@.take(src.len() as int) =~= src@);
}

/// Build the CRI record of one line.
pub fn build_cri_record(timestamp: &[u8], pipe: Pipe, line: &[u8], partial: bool) -> (record: Vec<u8>)
    ensures
        record@ == cri_record(timestamp@, pipe, line@, partial),
{
    let mut record: Vec<u8> = Vec::new();
    append_bytes(&mut record, timestamp);
    let tag = pipe_tag_bytes(pipe);
    append_bytes(&mut record, tag.as_slice());
    if partial {
        record.push(80u8);
    } else {
        record.push(70u8);
    }
    record.push(32u8);
    append_bytes(&mut record, line);
    if partial {
        record.push(NEWLINE);
    }
    assert(record@ =~= cri_record(timestamp@, pipe, line@, partial));
    record
}

/// Whether the log must be reopened before a record of `len` bytes is
/// written, and the byte count of the log file once it is.
pub fn account_record(bytes_written: usize, len: usize, max_log_size: Option<usize>) -> (r: (bool, usize))
    ensures
        r == cri_account(bytes_written, len as nat, max_log_size),
{
    match bytes_written.checked_add(len) {
        None => (true, len),
        Some(sum) => match max_log_size {
            Some(max) => if sum > max {
                (true, len)
            } else {
                (false, sum)
            },
            None => (false, sum),
        },
    }
}

/// The steps that write `data` from `pipe` to a CRI log stamped with
/// `timestamp`, whose byte count is `bytes_written` and whose size is
/// bounded by `max_log_size`. The caller performs them in order: it reopens
/// the log where a step says so, appends the step's record, and takes the
/// step's byte count as the new count of the log.
pub fn plan_cri_write(
    timestamp: &[u8],
    pipe: Pipe,
    data: &[u8],
    bytes_written: usize,
    max_log_size: Option<usize>,
) -> (ops: Vec<CriWriteOp>)
    ensures
        ops@.map_values(|o: CriWriteOp| o.view()) == spec_cri_plan(timestamp@, pipe, data@, bytes_written, max_log_size),
{
    let mut ops: Vec<CriWriteOp> = Vec::new();
    let mut i: usize = 0;
    let mut count: usize = bytes_written;
    assert(data@.skip(0) =~= data@);
    while i < data.len()
        invariant
            i <= data.len(),
            spec_cri_plan(timestamp@, pipe, data@, bytes_written, max_log_size)
                == ops@.map_values(|o: CriWriteOp| o.view())
                + spec_cri_plan(timestamp@, pipe, data@.skip(i as int), count, max_log_size),
        decreases data.len() - i,
    {
        let (n, partial) = next_line(data, i);
        proof {
            lemma_spec_lines_unfold(data@, i as int, n as int);
            assert(data@.skip(i as int).take(n as int) =~= data@.subrange(i as int, i + n));
            assert(data@.skip(i as int).skip(n as int) =~= data@.skip(i + n));
        }
        let line = sub_slice(data, i, n);
        let record = build_cri_record(timestamp, pipe, line, partial);
        let (reopen, next) = account_record(count, record.len(), max_log_size);
        let ghost old_ops = ops@;
        ops.push(CriWriteOp { reopen, record, bytes_written: next });
        assert(ops@.map_values(|o: CriWriteOp| o.view()) =~= old_ops.map_values(|o: CriWriteOp| o.view())
            + seq![(reopen, cri_record(timestamp@, pipe, data@.subrange(i as int, i + n), partial), next)]);
        count = next;
        i = i + n;
    }
    assert(spec_cri_plan(timestamp@, pipe, data@.skip(i as int), count, max_log_size) =~= Seq::empty());
    assert(ops@.map_values(|o: CriWriteOp| o.view()) + Seq::<(bool, Seq<u8>, usize)>::empty()
        =~= ops@.map_values(|o: CriWriteOp| o.view()));
    ops
}

/// Every line of the written data gets exactly one record, in order: the
/// records log the lines of `data`, joining those lines gives `data` back, and
/// only the last line can be partial.
pub proof fn lemma_cri_plan_logs_every_line(
    timestamp: Seq<u8>,
    pipe: Pipe,
    data: Seq<u8>,
    bytes_written: usize,
    max_log_size: Option<usize>,
)
    ensures
        ({
            let plan = spec_cri_plan(timestamp, pipe, data, bytes_written, max_log_size);
            let lines = spec_lines(data);
            &&& plan.len() == lines.len()
            &&& forall|k: int| 0 <= k < plan.len() ==> #[trigger] plan[k].1 == cri_record(
                timestamp, pipe, lines[k], no_newline(lines[k]))
            &&& forall|k: int| 0 <= k < lines.len() - 1 ==> !no_newline(#[trigger] lines[k])
            &&& flatten_bytes(lines) == data
        }),
    decreases data.len(),
{
    lemma_lines_flatten(data);
    if data.len() > 0 {
        lemma_line_len_bounds(data);
        lemma_first_line_shape(data);
        let n = line_len(data) as int;
        let line = data.take(n);
        let record = cri_record(timestamp, pipe, line, no_newline(line));
        let (reopen, count) = cri_account(bytes_written, record.len(), max_log_size);
        lemma_cri_plan_logs_every_line(timestamp, pipe, data.skip(n), count, max_log_size);
        let plan = spec_cri_plan(timestamp, pipe, data, bytes_written, max_log_size);
        let lines = spec_lines(data);
        let rest_plan = spec_cri_plan(timestamp, pipe, data.skip(n), count, max_log_size);
        let rest_lines = spec_lines(data.skip(n));
        assert(plan == seq![(reopen, record, count)] + rest_plan);
        assert(lines == seq![line] + rest_lines);
        assert forall|k: int| 0 <= k < plan.len() implies #[trigger] plan[k].1 == cri_record(
            timestamp, pipe, lines[k], no_newline(lines[k])) by {
            if k > 0 {
                assert(plan[k] == rest_plan[k - 1]);
                assert(lines[k] == rest_lines[k - 1]);
            }
        }
        assert forall|k: int| 0 <= k < lines.len() - 1 implies !no_newline(#[trigger] lines[k]) by {
            if k == 0 {
                assert(rest_lines.len() > 0);
                assert(data.skip(n).len() > 0);
            } else {
                assert(lines[k] == rest_lines[k - 1]);
            }
        }
    }
}

/// Every record ends with a newline, so records never run into each other.
pub proof fn lemma_cri_records_end_with_newline(
    timestamp: Seq<u8>,
    pipe: Pipe,
    data: Seq<u8>,
    bytes_written: usize,
    max_log_size: Option<usize>,
)
    ensures
        ({
            let plan = spec_cri_plan(timestamp, pipe, data, bytes_written, max_log_size);
            forall|k: int| 0 <= k < plan.len() ==> #[trigger] plan[k].1.len() > 0 && plan[k].1.last() == NEWLINE
        }),
    decreases data.len(),
{
    if data.len() > 0 {
        lemma_line_len_bounds(data);
        lemma_first_line_shape(data);
        let n = line_len(data) as int;
        let line = data.take(n);
        let record = cri_record(timestamp, pipe, line, no_newline(line));
        let (reopen, count) = cri_account(bytes_written, record.len(), max_log_size);
        lemma_cri_records_end_with_newline(timestamp, pipe, data.skip(n), count, max_log_size);
        let plan = spec_cri_plan(timestamp, pipe, data, bytes_written, max_log_size);
        let rest_plan = spec_cri_plan(timestamp, pipe, data.skip(n), count, max_log_size);
        assert(plan == seq![(reopen, record, count)] + rest_plan);
        assert(record.last() == NEWLINE);
        assert forall|k: int| 0 <= k < plan.len() implies #[trigger] plan[k].1.len() > 0 && plan[k].1.last() == NEWLINE by {
            if k > 0 {
                assert(plan[k] == rest_plan[k - 1]);
            }
        }
    }
}

/// With a maximum log size, the byte count never exceeds it unless a single
/// record does, and a step reopens the log exactly when its record would
/// push the count past the maximum or overflow it.
pub proof fn lemma_cri_count_bounded(
    timestamp: Seq<u8>,
    pipe: Pipe,
    data: Seq<u8>,
    bytes_written: usize,
    max: usize,
)
    requires
        timestamp.len() + data.len() + 11 <= usize::MAX,
    ensures
        ({
            let plan = spec_cri_plan(timestamp, pipe, data, bytes_written, Some(max));
            &&& forall|k: int| 0 <= k < plan.len() ==> #[trigger] plan[k].2 <= max || (plan[k].0
                && plan[k].2 == plan[k].1.len())
            &&& forall|k: int| 0 <= k < plan.len() ==> (#[trigger] plan[k].0 <==> ({
                let before = if k == 0 { bytes_written } else { plan[k - 1].2 };
                before + plan[k].1.len() > max
            }))
        }),
    decreases data.len(),
{
    if data.len() > 0 {
        lemma_line_len_bounds(data);
        let n = line_len(data) as int;
        let line = data.take(n);
        let record = cri_record(timestamp, pipe, line, no_newline(line));
        let (reopen, count) = cri_account(bytes_written, record.len(), Some(max));
        assert(record.len() <= timestamp.len() + data.len() + 11);
        lemma_cri_count_bounded(timestamp, pipe, data.skip(n), count, max);
        let plan = spec_cri_plan(timestamp, pipe, data, bytes_written, Some(max));
        let rest_plan = spec_cri_plan(timestamp, pipe, data.skip(n), count, Some(max));
        assert(plan == seq![(reopen, record, count)] + rest_plan);
        assert(record.len() >= 10);
        assert forall|k: int| 0 <= k < plan.len() implies (#[trigger] plan[k].2 <= max || (plan[k].0
            && plan[k].2 == plan[k].1.len())) && (plan[k].0 <==> ({
            let before = if k == 0 { bytes_written } else { plan[k - 1].2 };
            before + plan[k].1.len() > max
        })) by {
            if k > 0 {
                assert(plan[k] == rest_plan[k - 1]);
                if k > 1 {
                    assert(plan[k - 1] == rest_plan[k - 2]);
                }
            }
        }
    }
}

/// The log file after the steps of `plan`, starting from `file`: each step
/// truncates the file where it reopens the log, then appends its record.
pub open spec fn file_after(file: Seq<u8>, plan: Seq<(bool, Seq<u8>, usize)>) -> Seq<u8>
    decreases plan.len(),
{
    if plan.len() == 0 {
        file
    } else {
        file_after((if plan[0].0 { Seq::empty() } else { file }) + plan[0].1, plan.drop_first())
    }
}

/// The byte count is the size of the log file: starting from a count that is
/// the size of the file, the count after the steps of a write is the size of
/// the file once they are made, reopens included.
pub proof fn lemma_cri_count_is_file_size(
    timestamp: Seq<u8>,
    pipe: Pipe,
    data: Seq<u8>,
    file: Seq<u8>,
    max_log_size: Option<usize>,
)
    requires
        file.len() <= usize::MAX,
        timestamp.len() + data.len() + 11 <= usize::MAX,
    ensures
        ({
            let plan = spec_cri_plan(timestamp, pipe, data, file.len() as usize, max_log_size);
            plan.len() > 0 ==> plan.last().2 == file_after(file, plan).len()
        }),
    decreases data.len(),
{
    if data.len() > 0 {
        lemma_line_len_bounds(data);
        let n = line_len(data) as int;
        let line = data.take(n);
        let record = cri_record(timestamp, pipe, line, no_newline(line));
        let (reopen, count) = cri_account(file.len() as usize, record.len(), max_log_size);
        let next = (if reopen { Seq::<u8>::empty() } else { file }) + record;
        assert(record.len() <= timestamp.len() + data.len() + 11);
        assert(count == next.len());
        let plan = spec_cri_plan(timestamp, pipe, data, file.len() as usize, max_log_size);
        let rest_plan = spec_cri_plan(timestamp, pipe, data.skip(n), count, max_log_size);
        assert(plan == seq![(reopen, record, count)] + rest_plan);
        assert(plan.drop_first() =~= rest_plan);
        assert(next.len() as usize == count);
        lemma_cri_count_is_file_size(timestamp, pipe, data.skip(n), next, max_log_size);
        assert(file_after(file, plan) == file_after(next, rest_plan));
        if rest_plan.len() > 0 {
            assert(plan.last() == rest_plan.last());
        }
    }
}

/// The total size of the records of a plan.
pub open spec fn records_len(plan: Seq<(bool, Seq<u8>, usize)>) -> nat
    decreases plan.len(),
{
    if plan.len() == 0 {
        0
    } else {
        plan[0].1.len() + records_len(plan.drop_first())
    }
}

/// Without a maximum log size, a write whose records fit the counter never
/// reopens the log, and the count grows by exactly the size of the records.
pub proof fn lemma_cri_unbounded_counts_exactly(
    timestamp: Seq<u8>,
    pipe: Pipe,
    data: Seq<u8>,
    bytes_written: usize,
)
    requires
        bytes_written + records_len(spec_cri_plan(timestamp, pipe, data, bytes_written, None)) <= usize::MAX,
    ensures
        ({
            let plan = spec_cri_plan(timestamp, pipe, data, bytes_written, None);
            &&& forall|k: int| 0 <= k < plan.len() ==> !(#[trigger] plan[k].0)
            &&& plan.len() > 0 ==> plan.last().2 == bytes_written + records_len(plan)
        }),
    decreases data.len(),
{
    if data.len() > 0 {
        lemma_line_len_bounds(data);
        let n = line_len(data) as int;
        let line = data.take(n);
        let record = cri_record(timestamp, pipe, line, no_newline(line));
        let (reopen, count) = cri_account(bytes_written, record.len(), None);
        let plan = spec_cri_plan(timestamp, pipe, data, bytes_written, None);
        let rest_plan = spec_cri_plan(timestamp, pipe, data.skip(n), count, None);
        assert(plan == seq![(reopen, record, count)] + rest_plan);
        assert(plan.drop_first() =~= rest_plan);
        assert(record.len() >= 10);
        assert(records_len(plan) == record.len() + records_len(rest_plan));
        assert(count == bytes_written + record.len());
        lemma_cri_unbounded_counts_exactly(timestamp, pipe, data.skip(n), count);
        assert forall|k: int| 0 <= k < plan.len() implies !(#[trigger] plan[k].0) by {
            if k > 0 {
                assert(plan[k] == rest_plan[k - 1]);
            }
        }
        if rest_plan.len() > 0 {
            assert(plan.last() == rest_plan.last());
        }
    }
}

/// The interval, in milliseconds, for which a formatted timestamp is reused.
pub const TIMESTAMP_REFRESH_MS: u64 = 100;

/// Whether the cached timestamp must be formatted anew at `now_ms`: when there
/// is none yet, or when at least `TIMESTAMP_REFRESH_MS` passed since it was.
pub open spec fn spec_needs_refresh(cached_empty: bool, now_ms: u64, last_ms: u64) -> bool {
    cached_empty || (now_ms >= last_ms && now_ms - last_ms >= TIMESTAMP_REFRESH_MS)
}

/// The state of a CRI log: where it lives, how large it may grow, how much
/// was written to it, and the timestamp that stamps its records.
pub struct CriLogger {
    path: String,
    max_log_size: Option<usize>,
    bytes_written: usize,
    cached_timestamp: Vec<u8>,
    last_timestamp_update_ms: u64,
    clock: Instant,
}

/// Why a CRI log cannot be written.
#[derive(Clone, Copy, Debug, PartialEq, Eq, Structural)]
pub enum CriLogError {
    /// The current time cannot be formatted as an RFC 3339 timestamp.
    Timestamp,
}

impl CriLogger {
    pub closed spec fn spec_path(&self) -> Seq<char> {
        self.path@
    }

    pub closed spec fn spec_max_log_size(&self) -> Option<usize> {
        self.max_log_size
    }

    pub closed spec fn spec_bytes_written(&self) -> usize {
        self.bytes_written
    }

    pub closed spec fn spec_timestamp(&self) -> Seq<u8> {
        self.cached_timestamp@
    }

    pub closed spec fn spec_last_update_ms(&self) -> u64 {
        self.last_timestamp_update_ms
    }

    /// Create the state of a new CRI log at `path`, bounded by `max_log_size`.
    pub fn new(path: &str, max_log_size: Option<usize>) -> (r: Result<CriLogger, ()>)
        ensures
            r matches Ok(l) && l.spec_path() == path@ && l.spec_max_log_size() == max_log_size
                && l.spec_bytes_written() == 0 && l.spec_timestamp() == Seq::<u8>::empty()
                && l.spec_last_update_ms() == 0,
    {
        Ok(CriLogger {
            path: String::from_str(path),
            max_log_size,
            bytes_written: 0,
            cached_timestamp: Vec::new(),
            last_timestamp_update_ms: 0,
            clock: clock_start(),
        })
    }

    /// The path of the log file.
    pub fn path(&self) -> (p: &str)
        ensures
            p@ == self.spec_path(),
    {
        self.path.as_str()
    }

    /// The maximum log size.
    pub fn max_log_size(&self) -> (m: Option<usize>)
        ensures
            m == self.spec_max_log_size(),
    {
        self.max_log_size
    }

    /// The bytes written to the current log file.
    pub fn bytes_written(&self) -> (b: usize)
        ensures
            b == self.spec_bytes_written(),
    {
        self.bytes_written
    }

    /// Record the byte count of the log file.
    pub fn set_bytes_written(&mut self, val: usize)
        ensures
            final(self).spec_bytes_written() == val,
            final(self).spec_path() == old(self).spec_path(),
            final(self).spec_max_log_size() == old(self).spec_max_log_size(),
            final(self).spec_timestamp() == old(self).spec_timestamp(),
            final(self).spec_last_update_ms() == old(self).spec_last_update_ms(),
    {
        self.bytes_written = val;
    }

    /// Whether the timestamp must be formatted anew at `now_ms`.
    pub fn needs_timestamp_refresh(&self, now_ms: u64) -> (r: bool)
        ensures
            r == spec_needs_refresh(self.spec_timestamp().len() == 0, now_ms, self.spec_last_update_ms()),
            self.spec_timestamp().len() == 0 ==> r,
            now_ms >= self.spec_last_update_ms() + 100 ==> r,
            r ==> self.spec_timestamp().len() == 0 || now_ms >= self.spec_last_update_ms() + 100,
    {
        self.cached_timestamp.len() == 0 || (now_ms >= self.last_timestamp_update_ms
            && now_ms - self.last_timestamp_update_ms >= TIMESTAMP_REFRESH_MS)
    }

    /// Stamp the following records with `timestamp`, formatted at `now_ms`.
    pub fn set_timestamp(&mut self, timestamp: Vec<u8>, now_ms: u64)
        ensures
            final(self).spec_timestamp() == timestamp@,
            final(self).spec_last_update_ms() == now_ms,
            final(self).spec_path() == old(self).spec_path(),
            final(self).spec_max_log_size() == old(self).spec_max_log_size(),
            final(self).spec_bytes_written() == old(self).spec_bytes_written(),
    {
        self.cached_timestamp = timestamp;
        self.last_timestamp_update_ms = now_ms;
    }

    /// A refresh of the timestamp is due at `now_ms`: there is none yet, or
    /// the refresh interval has passed since the last one.
    pub open spec fn refresh_due(&self, now_ms: u64) -> bool {
        spec_needs_refresh(self.spec_timestamp().len() == 0, now_ms, self.spec_last_update_ms())
    }

    /// Refresh the timestamp at `now_ms` on the log's monotonic clock, where
    /// it is due, with `formatted`, the current time formatted for it:
    /// `None` where it could not be formatted, which fails the refresh. Where
    /// no refresh is due, nothing changes.
    pub fn refresh_at(&mut self, now_ms: u64, formatted: Option<Vec<u8>>) -> (r: Result<(), CriLogError>)
        ensures
            final(self).spec_path() == old(self).spec_path(),
            final(self).spec_max_log_size() == old(self).spec_max_log_size(),
            final(self).spec_bytes_written() == old(self).spec_bytes_written(),
            if spec_needs_refresh(old(self).spec_timestamp().len() == 0, now_ms, old(self).spec_last_update_ms()) {
                match formatted {
                    Some(ts) => r is Ok && final(self).spec_timestamp() == ts@
                        && final(self).spec_last_update_ms() == now_ms,
                    None => r == Err::<(), CriLogError>(CriLogError::Timestamp)
                        && final(self).spec_timestamp() == old(self).spec_timestamp()
                        && final(self).spec_last_update_ms() == old(self).spec_last_update_ms(),
                }
            } else {
                r is Ok && final(self).spec_timestamp() == old(self).spec_timestamp()
                    && final(self).spec_last_update_ms() == old(self).spec_last_update_ms()
            },
    {
        if self.needs_timestamp_refresh(now_ms) {
            match formatted {
                None => Err(CriLogError::Timestamp),
                Some(ts) => {
                    self.set_timestamp(ts, now_ms);
                    Ok(())
                },
            }
        } else {
            Ok(())
        }
    }

    /// Format the timestamp anew where it is due, reading the monotonic clock
    /// of the log for the time since it was created and the wall clock for
    /// the timestamp. Whatever the clocks read, the outcome is that of
    /// `refresh_at` at some time `now` with an RFC 3339 timestamp or none.
    pub fn refresh_timestamp(&mut self) -> (r: Result<(), CriLogError>)
        ensures
            final(self).spec_path() == old(self).spec_path(),
            final(self).spec_max_log_size() == old(self).spec_max_log_size(),
            final(self).spec_bytes_written() == old(self).spec_bytes_written(),
            exists|now: u64|
                if #[trigger] old(self).refresh_due(now) {
                    (r is Ok && rfc3339_bytes(final(self).spec_timestamp())
                        && final(self).spec_last_update_ms() == now) || (r
                        == Err::<(), CriLogError>(CriLogError::Timestamp)
                        && final(self).spec_timestamp() == old(self).spec_timestamp()
                        && final(self).spec_last_update_ms() == old(self).spec_last_update_ms())
                } else {
                    r is Ok && final(self).spec_timestamp() == old(self).spec_timestamp()
                        && final(self).spec_last_update_ms() == old(self).spec_last_update_ms()
                },
    {
        let now = clock_elapsed_ms(&self.clock);
        let formatted = if self.needs_timestamp_refresh(now) {
            match rfc3339_now() {
                None => None,
                Some(ts) => {
                    let text = ts.as_str();
                    proof {
                        lemma_rfc3339_bytes(text);
                    }
                    Some(vstd::slice::slice_to_vec(text.as_bytes()))
                },
            }
        } else {
            None
        };
        let r = self.refresh_at(now, formatted);
        assert(old(self).refresh_due(now) ==> ((r is Ok && rfc3339_bytes(self.spec_timestamp())
            && self.spec_last_update_ms() == now) || (r == Err::<(), CriLogError>(CriLogError::Timestamp)
            && self.spec_timestamp() == old(self).spec_timestamp()
            && self.spec_last_update_ms() == old(self).spec_last_update_ms())));
        assert(!old(self).refresh_due(now) ==> (r is Ok && self.spec_timestamp() == old(self).spec_timestamp()
            && self.spec_last_update_ms() == old(self).spec_last_update_ms()));
        r
    }

    /// The steps that write `data` from `pipe` to this log.
    pub fn plan_write(&self, pipe: Pipe, data: &[u8]) -> (ops: Vec<CriWriteOp>)
        ensures
            ops@.map_values(|o: CriWriteOp| o.view()) == spec_cri_plan(
                self.spec_timestamp(),
                pipe,
                data@,
                self.spec_bytes_written(),
                self.spec_max_log_size(),
            ),
    {
        plan_cri_write(self.cached_timestamp.as_slice(), pipe, data, self.bytes_written, self.max_log_size)
    }
}

} // verus!
