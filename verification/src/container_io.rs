//! Container input and output: the pipes, the messages that carry output,
//! and the decisions of the loops that read it.

use vstd::prelude::*;

verus! {

/// Available pipe types.
#[derive(Clone, Copy, Debug, PartialEq, Eq, Structural)]
pub enum Pipe {
    /// Standard output.
    StdOut,
    /// Standard error.
    StdErr,
}

/// The name of a pipe, in lower case.
pub open spec fn pipe_str(pipe: Pipe) -> Seq<char> {
    match pipe {
        Pipe::StdOut => "stdout"@,
        Pipe::StdErr => "stderr"@,
    }
}

impl Pipe {
    /// The name of the pipe, in lower case.
    pub fn as_str(&self) -> (s: &'static str)
        ensures
            s@ == pipe_str(*self),
    {
        match self {
            Pipe::StdOut => "stdout",
            Pipe::StdErr => "stderr",
        }
    }
}

/// A message to be sent through the container IO.
#[derive(Clone, Debug, PartialEq, Eq)]
pub enum Message {
    /// Output of the container, from a pipe.
    Data(Vec<u8>, Pipe),
    /// The end of the output.
    Done,
}

/// The largest amount of output that is collected from one stream.
pub const MAX_STDIO_STREAM_SIZE: usize = 16777216;

/// The collected output once the message `msg` arrives, and whether the
/// collection goes on: data is appended while the total stays below the
/// limit; data that would reach it, and the end of the output, stop it.
pub open spec fn spec_collect(stdio: Seq<u8>, msg: Message) -> (Seq<u8>, bool) {
    match msg {
        Message::Data(data, _) => if stdio.len() + data@.len() < MAX_STDIO_STREAM_SIZE {
            (stdio + data@, true)
        } else {
            (stdio, false)
        },
        Message::Done => (stdio, false),
    }
}

/// Take the message `msg` into the collected output `stdio`; whether the
/// collection goes on.
pub fn collect_message(stdio: &mut Vec<u8>, msg: Message) -> (more: bool)
    ensures
        (final(stdio)@, more) == spec_collect(old(stdio)@, msg),
        more ==> (msg matches Message::Data(d, _) && final(stdio)@ == old(stdio)@ + d@),
        !more ==> final(stdio)@ == old(stdio)@,
        msg matches Message::Data(d, _) ==> (more <==> old(stdio)@.len() + d@.len() < MAX_STDIO_STREAM_SIZE),
        old(stdio)@.len() < MAX_STDIO_STREAM_SIZE ==> final(stdio)@.len() < MAX_STDIO_STREAM_SIZE,
{
    match msg {
        Message::Data(data, _) => {
            if data.len() < MAX_STDIO_STREAM_SIZE && stdio.len() < MAX_STDIO_STREAM_SIZE - data.len() {
                let mut d = data;
                stdio.append(&mut d);
                true
            } else {
                false
            }
        },
        Message::Done => false,
    }
}

/// How one read of a container stream ended.
#[derive(Clone, Copy, Debug, PartialEq, Eq, Structural)]
pub enum ReadOutcome {
    /// This many bytes were read.
    Bytes(usize),
    /// The read failed, with this OS error number where there is one.
    Failed(Option<i32>),
}

/// The error number of an I/O error.
pub const EIO: i32 = 5;

/// The error number of a bad file descriptor.
pub const EBADF: i32 = 9;

/// The error number of a read that would block.
pub const EAGAIN: i32 = 11;

/// What the read loop of a container stream does after a read.
#[derive(Clone, Copy, Debug, PartialEq, Eq, Structural)]
pub enum ReadAction {
    /// Log the bytes read and forward them to the attached clients and the
    /// output channel, then read again.
    Forward,
    /// Send the end of the output to the attached clients and the output
    /// channel, and stop.
    Finish,
    /// Stop with an error.
    Fail,
    /// Read again.
    Retry,
    /// Report the error, then read again.
    Report,
}

/// The action after a read: the end of the stream, and an I/O error (the
/// other side of a terminal went away), finish it; a read that would block
/// is retried; a bad descriptor, or an error without a number, fails; other
/// errors are reported and reading goes on.
pub open spec fn spec_read_action(outcome: ReadOutcome) -> ReadAction {
    match outcome {
        ReadOutcome::Bytes(n) => if n == 0 {
            ReadAction::Finish
        } else {
            ReadAction::Forward
        },
        ReadOutcome::Failed(None) => ReadAction::Fail,
        ReadOutcome::Failed(Some(errno)) => if errno == EIO {
            ReadAction::Finish
        } else if errno == EBADF {
            ReadAction::Fail
        } else if errno == EAGAIN {
            ReadAction::Retry
        } else {
            ReadAction::Report
        },
    }
}

/// The action of the read loop of a container stream after a read.
pub fn read_action(outcome: ReadOutcome) -> (a: ReadAction)
    ensures
        a == spec_read_action(outcome),
        outcome matches ReadOutcome::Bytes(n) ==> a == (if n == 0 { ReadAction::Finish } else { ReadAction::Forward }),
        outcome == ReadOutcome::Failed(Some(5)) ==> a == ReadAction::Finish,
        outcome == ReadOutcome::Failed(Some(9)) || outcome == ReadOutcome::Failed(None) ==> a == ReadAction::Fail,
        outcome == ReadOutcome::Failed(Some(11)) ==> a == ReadAction::Retry,
        a is Forward ==> (outcome matches ReadOutcome::Bytes(n) && n > 0),
        a is Report ==> (outcome matches ReadOutcome::Failed(Some(e)) && e != 5 && e != 9 && e != 11),
{
    match outcome {
        ReadOutcome::Bytes(n) => if n == 0 {
            ReadAction::Finish
        } else {
            ReadAction::Forward
        },
        ReadOutcome::Failed(None) => ReadAction::Fail,
        ReadOutcome::Failed(Some(errno)) => if errno == EIO {
            ReadAction::Finish
        } else if errno == EBADF {
            ReadAction::Fail
        } else if errno == EAGAIN {
            ReadAction::Retry
        } else {
            ReadAction::Report
        },
    }
}

/// The messages that the read loop of a stream sends, on the reads in order
/// (each an outcome with the bytes it read): `Some(data)` for the data of a
/// read, `None` for the end of the output; and whether the loop stopped with
/// an error. The loop ends at the first read that finishes or fails it.
pub open spec fn read_loop_messages(reads: Seq<(ReadOutcome, Seq<u8>)>) -> (Seq<Option<Seq<u8>>>, bool)
    decreases reads.len(),
{
    if reads.len() == 0 {
        (Seq::empty(), false)
    } else {
        let rest = read_loop_messages(reads.drop_first());
        match spec_read_action(reads[0].0) {
            ReadAction::Forward => (seq![Some(reads[0].1)] + rest.0, rest.1),
            ReadAction::Finish => (seq![None], false),
            ReadAction::Fail => (Seq::empty(), true),
            ReadAction::Retry | ReadAction::Report => rest,
        }
    }
}

/// A read of data: some bytes, and they are what it read.
pub open spec fn is_data_read(read: (ReadOutcome, Seq<u8>)) -> bool {
    read.0 matches ReadOutcome::Bytes(n) && n > 0 && read.1.len() == n
}

/// A stream that yields chunks of data and then ends (its end, or an I/O
/// error of a terminal whose other side went away) has every chunk
/// forwarded in order, then exactly one end of output, and no error; the
/// reads after the end are never made.
pub proof fn lemma_read_loop_forwards_all(
    chunks: Seq<(ReadOutcome, Seq<u8>)>,
    end: ReadOutcome,
    later: Seq<(ReadOutcome, Seq<u8>)>,
)
    requires
        forall|i: int| 0 <= i < chunks.len() ==> is_data_read(#[trigger] chunks[i]),
        end == ReadOutcome::Bytes(0) || end == ReadOutcome::Failed(Some(EIO)),
    ensures
        read_loop_messages(chunks + seq![(end, Seq::<u8>::empty())] + later) == (
            chunks.map_values(|r: (ReadOutcome, Seq<u8>)| Some(r.1)).push(None::<Seq<u8>>),
            false,
        ),
    decreases chunks.len(),
{
    let all = chunks + seq![(end, Seq::<u8>::empty())] + later;
    if chunks.len() == 0 {
        assert(all[0] == (end, Seq::<u8>::empty()));
        assert(spec_read_action(end) == ReadAction::Finish);
        assert(chunks.map_values(|r: (ReadOutcome, Seq<u8>)| Some(r.1)).push(None::<Seq<u8>>) =~= seq![
            None::<Seq<u8>>,
        ]);
    } else {
        let tail = chunks.drop_first();
        assert forall|i: int| 0 <= i < tail.len() implies is_data_read(#[trigger] tail[i]) by {
            assert(tail[i] == chunks[i + 1]);
        }
        lemma_read_loop_forwards_all(tail, end, later);
        assert(all.drop_first() =~= tail + seq![(end, Seq::<u8>::empty())] + later);
        assert(all[0] == chunks[0]);
        assert(is_data_read(chunks[0]));
        assert(spec_read_action(all[0].0) == ReadAction::Forward);
        assert(chunks.map_values(|r: (ReadOutcome, Seq<u8>)| Some(r.1)).push(None::<Seq<u8>>) =~= seq![
            Some(chunks[0].1),
        ] + tail.map_values(|r: (ReadOutcome, Seq<u8>)| Some(r.1)).push(None::<Seq<u8>>));
    }
}

/// A stream whose descriptor goes bad after chunks of data has every chunk
/// forwarded in order and then stops with an error, without an end of
/// output.
pub proof fn lemma_read_loop_fails_on_bad_fd(
    chunks: Seq<(ReadOutcome, Seq<u8>)>,
    bad: Seq<u8>,
    later: Seq<(ReadOutcome, Seq<u8>)>,
)
    requires
        forall|i: int| 0 <= i < chunks.len() ==> is_data_read(#[trigger] chunks[i]),
    ensures
        read_loop_messages(chunks + seq![(ReadOutcome::Failed(Some(EBADF)), bad)] + later) == (
            chunks.map_values(|r: (ReadOutcome, Seq<u8>)| Some(r.1)),
            true,
        ),
    decreases chunks.len(),
{
    let all = chunks + seq![(ReadOutcome::Failed(Some(EBADF)), bad)] + later;
    if chunks.len() == 0 {
        assert(all[0] == (ReadOutcome::Failed(Some(EBADF)), bad));
        assert(spec_read_action(all[0].0) == ReadAction::Fail);
        assert(chunks.map_values(|r: (ReadOutcome, Seq<u8>)| Some(r.1)) =~= Seq::<Option<Seq<u8>>>::empty());
    } else {
        let tail = chunks.drop_first();
        assert forall|i: int| 0 <= i < tail.len() implies is_data_read(#[trigger] tail[i]) by {
            assert(tail[i] == chunks[i + 1]);
        }
        lemma_read_loop_fails_on_bad_fd(tail, bad, later);
        assert(all.drop_first() =~= tail + seq![(ReadOutcome::Failed(Some(EBADF)), bad)] + later);
        assert(all[0] == chunks[0]);
        assert(is_data_read(chunks[0]));
        assert(spec_read_action(all[0].0) == ReadAction::Forward);
        assert(chunks.map_values(|r: (ReadOutcome, Seq<u8>)| Some(r.1)) =~= seq![Some(chunks[0].1)]
            + tail.map_values(|r: (ReadOutcome, Seq<u8>)| Some(r.1)));
    }
}

} // verus!
