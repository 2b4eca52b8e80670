//! Container log records as JSON lines: one object per line of output, with
//! the time in seconds, the stream and the trimmed message, and log
//! rotation by size.

use vstd::prelude::*;
use vstd::utf8::{decode_utf8, valid_utf8};
use crate::clock::unix_time_secs;
use crate::container_io::{pipe_str, Pipe};
use crate::cri_log::append_bytes;
use crate::lines::{
    lemma_line_len_bounds, lemma_spec_lines_unfold, line_len, next_line, spec_lines, sub_slice, NEWLINE,
};
use crate::text::{append_decimal_bytes, ascii_bytes, decimal, trim, trimmed};

verus! {

/// What `String::from_utf8_lossy` makes of `bytes`.
pub uninterp spec fn utf8_lossy(bytes: Seq<u8>) -> Seq<char>;

/// The lowercase hexadecimal digit of `d`, below 16.
pub open spec fn hex_digit(d: int) -> char {
    if d < 10 {
        (48 + d) as char
    } else {
        (87 + d) as char
    }
}

/// How the character `c` stands inside a JSON string literal: quote and
/// backslash behind a backslash, the control characters with a short escape
/// where JSON has one and as `\u00` and two lowercase hexadecimal digits
/// otherwise, every other character as it is.
pub open spec fn json_escape_char(c: char) -> Seq<char> {
    if c == '"' {
        seq!['\\', '"']
    } else if c == '\\' {
        seq!['\\', '\\']
    } else if c == '\u{8}' {
        seq!['\\', 'b']
    } else if c == '\t' {
        seq!['\\', 't']
    } else if c == '\n' {
        seq!['\\', 'n']
    } else if c == '\u{c}' {
        seq!['\\', 'f']
    } else if c == '\r' {
        seq!['\\', 'r']
    } else if (c as int) < 32 {
        seq!['\\', 'u', '0', '0', hex_digit((c as int) / 16), hex_digit((c as int) % 16)]
    } else {
        seq![c]
    }
}

/// The characters of `s` escaped for a JSON string literal.
pub open spec fn json_escaped(s: Seq<char>) -> Seq<char>
    decreases s.len(),
{
    if s.len() == 0 {
        Seq::empty()
    } else {
        json_escaped(s.drop_last()) + json_escape_char(s.last())
    }
}

/// The JSON string literal of `s`.
pub open spec fn json_quoted(s: Seq<char>) -> Seq<char> {
    seq!['"'] + json_escaped(s) + seq!['"']
}

/// std `String::from_utf8_lossy`: decodes `bytes` as UTF-8, replacing invalid
/// sequences. Its documentation promises that valid UTF-8 is decoded as is.
#[verifier::external_body]
fn lossy_utf8(bytes: &[u8]) -> (s: String)
    ensures
        s@ == utf8_lossy(bytes@),
        valid_utf8(bytes@) ==> s@ == decode_utf8(bytes@),
{
    String::from_utf8_lossy(bytes).into_owned()
}

/// serde_json `to_string` on a string: its JSON string literal, escaped as
/// the escape table of its serializer shows. Serializing a string into
/// memory does not fail.
#[verifier::external_body]
fn quote_json(s: &str) -> (q: String)
    ensures
        q@ == json_quoted(s@),
{
    match serde_json::to_string(s) {
        Ok(q) => q,
        Err(_) => String::new(),
    }
}

/// The JSON name of a pipe.
pub open spec fn pipe_name(pipe: Pipe) -> Seq<u8> {
    match pipe {
        Pipe::StdOut => seq![115u8, 116, 100, 111, 117, 116],
        Pipe::StdErr => seq![115u8, 116, 100, 101, 114, 114],
    }
}

/// `{"timestamp":`
pub open spec fn entry_head() -> Seq<u8> {
    seq![123u8, 34, 116, 105, 109, 101, 115, 116, 97, 109, 112, 34, 58]
}

/// `,"pipe":"`
pub open spec fn entry_pipe() -> Seq<u8> {
    seq![44u8, 34, 112, 105, 112, 101, 34, 58, 34]
}

/// `","message":`
pub open spec fn entry_message() -> Seq<u8> {
    seq![34u8, 44, 34, 109, 101, 115, 115, 97, 103, 101, 34, 58]
}

/// The message that a line carries: the line decoded and trimmed.
pub open spec fn line_message(line: Seq<u8>) -> Seq<char> {
    trimmed(utf8_lossy(line))
}

/// The JSON object of one line, given the JSON literal of its message.
pub open spec fn json_entry(timestamp: u64, pipe: Pipe, quoted_message: Seq<char>) -> Seq<u8> {
    entry_head() + ascii_bytes(decimal(timestamp as nat)) + entry_pipe() + pipe_name(pipe) + entry_message()
        + vstd::utf8::encode_utf8(quoted_message) + seq![125u8]
}

/// The ASCII bytes of a text.
pub open spec fn text_bytes(s: Seq<char>) -> Seq<u8> {
    s.map_values(|c: char| c as u8)
}

/// The JSON object of a line has the keys `timestamp`, `pipe` and
/// `message`, in this order: the time in decimal, the name of the stream as
/// a string, and the message's JSON string literal.
pub proof fn lemma_json_entry_format(timestamp: u64, pipe: Pipe, quoted_message: Seq<char>)
    ensures
        json_entry(timestamp, pipe, quoted_message) == text_bytes("{\"timestamp\":"@) + ascii_bytes(
            decimal(timestamp as nat),
        ) + text_bytes(",\"pipe\":\""@) + text_bytes(pipe_str(pipe)) + text_bytes("\",\"message\":"@)
            + vstd::utf8::encode_utf8(quoted_message) + text_bytes("}"@),
{
    reveal_strlit("{\"timestamp\":");
    reveal_strlit(",\"pipe\":\"");
    reveal_strlit("\",\"message\":");
    reveal_strlit("}");
    reveal_strlit("stdout");
    reveal_strlit("stderr");
    assert(text_bytes("{\"timestamp\":"@) =~= entry_head());
    assert(text_bytes(",\"pipe\":\""@) =~= entry_pipe());
    assert(text_bytes(pipe_str(pipe)) =~= pipe_name(pipe));
    assert(text_bytes("\",\"message\":"@) =~= entry_message());
    assert(text_bytes("}"@) =~= seq![125u8]);
}

/// Why writing a JSON log stops.
#[derive(Clone, Copy, Debug, PartialEq, Eq, Structural)]
pub enum JsonLogError {
    /// The byte count of the log would overflow.
    CounterOverflow,
}

/// One step of writing container output to a JSON log.
pub struct JsonWriteOp {
    /// Reopen (truncate) the log file before writing the record.
    pub reopen: bool,
    /// The JSON object and its newline.
    pub record: Vec<u8>,
    /// The byte count once the record is counted.
    pub counted: usize,
    /// The byte count once the log was reopened where it was.
    pub bytes_written: usize,
}

impl JsonWriteOp {
    pub open spec fn view(&self) -> (bool, Seq<u8>, usize, usize) {
        (self.reopen, self.record@, self.counted, self.bytes_written)
    }
}

/// The steps of a JSON log write, and the error that stopped it, if any.
pub struct JsonWritePlan {
    pub ops: Vec<JsonWriteOp>,
    pub error: Option<JsonLogError>,
}

/// The steps that write `data` from `pipe` to a JSON log with byte count
/// `bytes_written`, and the error that stops the write, if one does.
pub open spec fn spec_json_plan(
    timestamp: u64,
    pipe: Pipe,
    data: Seq<u8>,
    bytes_written: usize,
    max_log_size: Option<usize>,
) -> (Seq<(bool, Seq<u8>, usize, usize)>, Option<JsonLogError>)
    decreases data.len(),
{
    if data.len() == 0 {
        (Seq::empty(), None)
    } else {
        let n = line_len(data);
        proof {
            lemma_line_len_bounds(data);
        }
        let line = data.take(n as int);
        let record = json_entry(timestamp, pipe, json_quoted(line_message(line))).push(NEWLINE);
        let counted = bytes_written + record.len();
        if counted > usize::MAX {
            (Seq::empty(), Some(JsonLogError::CounterOverflow))
        } else {
            let reopen = match max_log_size {
                Some(max) => counted > max,
                None => false,
            };
            let after: usize = if reopen { 0 } else { counted as usize };
            let rest = spec_json_plan(timestamp, pipe, data.skip(n as int), after, max_log_size);
            (seq![(reopen, record, counted as usize, after)] + rest.0, rest.1)
        }
    }
}

/// The JSON object and newline that log one line.
pub fn build_json_record(timestamp: u64, pipe: Pipe, line: &[u8]) -> (rec: Vec<u8>)
    ensures
        rec@ == json_entry(timestamp, pipe, json_quoted(line_message(line@))).push(NEWLINE),
{
    let text = lossy_utf8(line);
    let message = trim(text.as_str());
    let q = quote_json(message);
    let mut rec: Vec<u8> = vec![123u8, 34, 116, 105, 109, 101, 115, 116, 97, 109, 112, 34, 58];
    append_decimal_bytes(&mut rec, timestamp);
    let head: Vec<u8> = vec![44u8, 34, 112, 105, 112, 101, 34, 58, 34];
    append_bytes(&mut rec, head.as_slice());
    let name: Vec<u8> = match pipe {
        Pipe::StdOut => vec![115u8, 116, 100, 111, 117, 116],
        Pipe::StdErr => vec![115u8, 116, 100, 101, 114, 114],
    };
    append_bytes(&mut rec, name.as_slice());
    let mid: Vec<u8> = vec![34u8, 44, 34, 109, 101, 115, 115, 97, 103, 101, 34, 58];
    append_bytes(&mut rec, mid.as_slice());
    append_bytes(&mut rec, q.as_str().as_bytes());
    rec.push(125u8);
    rec.push(NEWLINE);
    proof {
        assert(head@ =~= entry_pipe());
        assert(name@ =~= pipe_name(pipe));
        assert(mid@ =~= entry_message());
        assert(rec@ =~= json_entry(timestamp, pipe, q@).push(NEWLINE));
    }
    rec
}

/// The steps that write `data` from `pipe` to a JSON log stamped with
/// `timestamp` (seconds since the epoch), whose byte count is
/// `bytes_written`. The caller performs them in order: it takes `counted` as
/// the byte count, reopens the log where the step says so and then takes
/// `bytes_written` as the count, and appends the record. Where the plan holds
/// an error, the caller stops with it after the steps.
pub fn plan_json_write(
    timestamp: u64,
    pipe: Pipe,
    data: &[u8],
    bytes_written: usize,
    max_log_size: Option<usize>,
) -> (plan: JsonWritePlan)
    ensures
        (plan.ops@.map_values(|o: JsonWriteOp| o.view()), plan.error) == spec_json_plan(
            timestamp,
            pipe,
            data@,
            bytes_written,
            max_log_size,
        ),
{
    let mut ops: Vec<JsonWriteOp> = Vec::new();
    let mut i: usize = 0;
    let mut count: usize = bytes_written;
    let ghost whole = spec_json_plan(timestamp, pipe, data@, bytes_written, max_log_size);
    assert(data@.skip(0) =~= data@);
    while i < data.len()
        invariant
            i <= data.len(),
            whole == spec_json_plan(timestamp, pipe, data@, bytes_written, max_log_size),
            whole.0 == ops@.map_values(|o: JsonWriteOp| o.view())
                + spec_json_plan(timestamp, pipe, data@.skip(i as int), count, max_log_size).0,
            whole.1 == spec_json_plan(timestamp, pipe, data@.skip(i as int), count, max_log_size).1,
        decreases data.len() - i,
    {
        let (n, _partial) = next_line(data, i);
        proof {
            lemma_spec_lines_unfold(data@, i as int, n as int);
            assert(data@.skip(i as int).take(n as int) =~= data@.subrange(i as int, i + n));
            assert(data@.skip(i as int).skip(n as int) =~= data@.skip(i + n));
        }
        let line = sub_slice(data, i, n);
        let record = build_json_record(timestamp, pipe, line);
        match count.checked_add(record.len()) {
            None => {
                assert(ops@.map_values(|o: JsonWriteOp| o.view()) + Seq::<(bool, Seq<u8>, usize, usize)>::empty()
                    =~= ops@.map_values(|o: JsonWriteOp| o.view()));
                return JsonWritePlan { ops, error: Some(JsonLogError::CounterOverflow) };
            },
            Some(counted) => {
                let reopen = match max_log_size {
                    Some(max) => counted > max,
                    None => false,
                };
                let after: usize = if reopen { 0 } else { counted };
                let ghost old_ops = ops@;
                let ghost rec = record@;
                ops.push(JsonWriteOp { reopen, record, counted, bytes_written: after });
                assert(ops@.map_values(|o: JsonWriteOp| o.view()) =~= old_ops.map_values(|o: JsonWriteOp| o.view())
                    + seq![(reopen, rec, counted, after)]);
                count = after;
                i = i + n;
            },
        }
    }
    assert(ops@.map_values(|o: JsonWriteOp| o.view()) + Seq::<(bool, Seq<u8>, usize, usize)>::empty()
        =~= ops@.map_values(|o: JsonWriteOp| o.view()));
    JsonWritePlan { ops, error: None }
}

/// With a maximum log size, the byte count left after each step never
/// exceeds it, and a step reopens the log exactly when its record pushes the
/// count past the maximum; every record ends with a newline.
pub proof fn lemma_json_count_bounded(
    timestamp: u64,
    pipe: Pipe,
    data: Seq<u8>,
    bytes_written: usize,
    max: usize,
)
    ensures
        ({
            let ops = spec_json_plan(timestamp, pipe, data, bytes_written, Some(max)).0;
            forall|k: int| 0 <= k < ops.len() ==> {
                &&& (#[trigger] ops[k]).3 <= max
                &&& ops[k].0 <==> ops[k].2 > max
                &&& ops[k].2 == (if k == 0 { bytes_written } else { ops[k - 1].3 }) + ops[k].1.len()
                &&& ops[k].1.len() > 0 && ops[k].1.last() == NEWLINE
            }
        }),
    decreases data.len(),
{
    if data.len() > 0 {
        lemma_line_len_bounds(data);
        let n = line_len(data);
        let line = data.take(n as int);
        let record = json_entry(timestamp, pipe, json_quoted(line_message(line))).push(NEWLINE);
        let counted = bytes_written + record.len();
        if counted <= usize::MAX {
            let reopen = counted > max;
            let after: usize = if reopen { 0 } else { counted as usize };
            lemma_json_count_bounded(timestamp, pipe, data.skip(n as int), after, max);
            let ops = spec_json_plan(timestamp, pipe, data, bytes_written, Some(max)).0;
            let rest = spec_json_plan(timestamp, pipe, data.skip(n as int), after, Some(max)).0;
            assert(ops == seq![(reopen, record, counted as usize, after)] + rest);
            assert forall|k: int| 0 <= k < ops.len() implies {
                &&& (#[trigger] ops[k]).3 <= max
                &&& ops[k].0 <==> ops[k].2 > max
                &&& ops[k].2 == (if k == 0 { bytes_written } else { ops[k - 1].3 }) + ops[k].1.len()
                &&& ops[k].1.len() > 0 && ops[k].1.last() == NEWLINE
            } by {
                if k > 0 {
                    assert(ops[k] == rest[k - 1]);
                    if k > 1 {
                        assert(ops[k - 1] == rest[k - 2]);
                    }
                }
            }
        }
    }
}

/// Where the write completes, every line of the written data gets exactly
/// one record, in order: the JSON object of the line's message.
pub proof fn lemma_json_plan_logs_every_line(
    timestamp: u64,
    pipe: Pipe,
    data: Seq<u8>,
    bytes_written: usize,
    max_log_size: Option<usize>,
)
    ensures
        ({
            let (ops, error) = spec_json_plan(timestamp, pipe, data, bytes_written, max_log_size);
            let lines = spec_lines(data);
            error is None ==> {
                &&& ops.len() == lines.len()
                &&& forall|k: int| 0 <= k < ops.len() ==> (#[trigger] ops[k]).1 == json_entry(
                    timestamp,
                    pipe,
                    json_quoted(line_message(lines[k])),
                ).push(NEWLINE)
            }
        }),
    decreases data.len(),
{
    if data.len() > 0 {
        lemma_line_len_bounds(data);
        let n = line_len(data) as int;
        let line = data.take(n);
        let record = json_entry(timestamp, pipe, json_quoted(line_message(line))).push(NEWLINE);
        let counted = bytes_written + record.len();
        if counted <= usize::MAX {
            let reopen = match max_log_size {
                Some(max) => counted > max,
                None => false,
            };
            let after: usize = if reopen { 0 } else { counted as usize };
            lemma_json_plan_logs_every_line(timestamp, pipe, data.skip(n), after, max_log_size);
            let (ops, error) = spec_json_plan(timestamp, pipe, data, bytes_written, max_log_size);
            let rest = spec_json_plan(timestamp, pipe, data.skip(n), after, max_log_size);
            let lines = spec_lines(data);
            let rest_lines = spec_lines(data.skip(n));
            assert(ops == seq![(reopen, record, counted as usize, after)] + rest.0);
            assert(lines == seq![line] + rest_lines);
            if error is None {
                assert forall|k: int| 0 <= k < ops.len() implies (#[trigger] ops[k]).1 == json_entry(
                    timestamp,
                    pipe,
                    json_quoted(line_message(lines[k])),
                ).push(NEWLINE) by {
                    if k > 0 {
                        assert(ops[k] == rest.0[k - 1]);
                        assert(lines[k] == rest_lines[k - 1]);
                    }
                }
            }
        }
    }
}

/// The state of a JSON log: where it lives, how large it may grow and how
/// much was written to it.
pub struct JsonLogger {
    path: String,
    max_log_size: Option<usize>,
    bytes_written: usize,
}

impl JsonLogger {
    pub closed spec fn spec_path(&self) -> Seq<char> {
        self.path@
    }

    pub closed spec fn spec_max_log_size(&self) -> Option<usize> {
        self.max_log_size
    }

    pub closed spec fn spec_bytes_written(&self) -> usize {
        self.bytes_written
    }

    /// Create the state of a new JSON log at `path`, bounded by `max_log_size`.
    pub fn new(path: &str, max_log_size: Option<usize>) -> (r: Result<JsonLogger, ()>)
        ensures
            r matches Ok(l) && l.spec_path() == path@ && l.spec_max_log_size() == max_log_size
                && l.spec_bytes_written() == 0,
    {
        Ok(JsonLogger { path: String::from_str(path), max_log_size, bytes_written: 0 })
    }

    /// The path of the log file.
    pub fn path(&self) -> (p: &str)
        ensures
            p@ == self.spec_path(),
    {
        self.path.as_str()
    }

    /// The maximum log size.
    pub fn max_log_size(&self) -> (m: Option<usize>)
        ensures
            m == self.spec_max_log_size(),
    {
        self.max_log_size
    }

    /// The bytes counted for the current log file.
    pub fn bytes_written(&self) -> (b: usize)
        ensures
            b == self.spec_bytes_written(),
    {
        self.bytes_written
    }

    /// Record the byte count of the log file.
    pub fn set_bytes_written(&mut self, val: usize)
        ensures
            final(self).spec_bytes_written() == val,
            final(self).spec_path() == old(self).spec_path(),
            final(self).spec_max_log_size() == old(self).spec_max_log_size(),
    {
        self.bytes_written = val;
    }

    /// The steps that write `data` from `pipe`, stamped with `timestamp`.
    pub fn plan_write(&self, timestamp: u64, pipe: Pipe, data: &[u8]) -> (plan: JsonWritePlan)
        ensures
            (plan.ops@.map_values(|o: JsonWriteOp| o.view()), plan.error) == spec_json_plan(
                timestamp,
                pipe,
                data@,
                self.spec_bytes_written(),
                self.spec_max_log_size(),
            ),
    {
        plan_json_write(timestamp, pipe, data, self.bytes_written, self.max_log_size)
    }

    /// The steps that write `data` from `pipe`, stamped with the current Unix
    /// time in seconds, which is handed back with them.
    pub fn plan_write_now(&self, pipe: Pipe, data: &[u8]) -> (r: (u64, JsonWritePlan))
        ensures
            (r.1.ops@.map_values(|o: JsonWriteOp| o.view()), r.1.error) == spec_json_plan(
                r.0,
                pipe,
                data@,
                self.spec_bytes_written(),
                self.spec_max_log_size(),
            ),
    {
        let timestamp = unix_time_secs();
        (timestamp, self.plan_write(timestamp, pipe, data))
    }
}

} // verus!
