//! Framing of the data that attached clients exchange with a container.

use vstd::prelude::*;
use crate::container_io::{Pipe, ReadOutcome, EAGAIN, EBADF, EIO};

verus! {

/// The size of an attach packet.
pub const PACKET_BUF_SIZE: usize = 8192;

/// The byte that leads every packet of container output sent to an attached client.
pub open spec fn pipe_byte(pipe: Pipe) -> u8 {
    match pipe {
        Pipe::StdOut => 2,
        Pipe::StdErr => 3,
    }
}

/// The payload size of one packet: one byte of the packet is the pipe byte.
pub open spec fn payload_size() -> nat {
    (PACKET_BUF_SIZE - 1) as nat
}

/// The packets into which `buf` is cut: chunks of at most `payload_size()`
/// bytes, in order, each led by the pipe byte.
pub open spec fn spec_attach_packets(pipe: Pipe, buf: Seq<u8>) -> Seq<Seq<u8>>
    decreases buf.len(),
{
    if buf.len() == 0 {
        Seq::empty()
    } else {
        let n = if buf.len() < payload_size() { buf.len() } else { payload_size() };
        seq![seq![pipe_byte(pipe)] + buf.take(n as int)] + spec_attach_packets(pipe, buf.skip(n as int))
    }
}

/// The byte of a pipe, as the attach protocol writes it.
pub fn attach_pipe_byte(pipe: Pipe) -> (b: u8)
    ensures
        b == pipe_byte(pipe),
{
    match pipe {
        Pipe::StdOut => 2,
        Pipe::StdErr => 3,
    }
}

proof fn lemma_packets_unfold(pipe: Pipe, buf: Seq<u8>, i: int, n: int)
    requires
        0 <= i < buf.len(),
        n == if buf.len() - i < payload_size() { buf.len() - i } else { payload_size() as int },
    ensures
        spec_attach_packets(pipe, buf.skip(i)) == seq![seq![pipe_byte(pipe)] + buf.subrange(i, i + n)]
            + spec_attach_packets(pipe, buf.skip(i + n)),
{
    let s = buf.skip(i);
    assert(s.take(n) =~= buf.subrange(i, i + n));
    assert(s.skip(n) =~= buf.skip(i + n));
}

/// Cut container output into attach packets: chunks of at most
/// `PACKET_BUF_SIZE - 1` bytes, each led by the byte of its pipe.
pub fn attach_packets(pipe: Pipe, buf: &[u8]) -> (packets: Vec<Vec<u8>>)
    ensures
        packets@.map_values(|p: Vec<u8>| p@) == spec_attach_packets(pipe, buf@),
        forall|k: int| 0 <= k < packets@.len() ==> 2 <= (#[trigger] packets@[k])@.len() <= 8192 && packets@[k]@[0]
            == (if pipe == Pipe::StdOut { 2u8 } else { 3u8 }),
        joined_payloads(packets@.map_values(|p: Vec<u8>| p@)) == buf@,
{
    proof {
        lemma_attach_packets_reassemble(pipe, buf@);
    }
    let p = attach_pipe_byte(pipe);
    let mut packets: Vec<Vec<u8>> = Vec::new();
    let mut i: usize = 0;
    let chunk: usize = PACKET_BUF_SIZE - 1;
    assert(buf@.skip(0) =~= buf@);
    while i < buf.len()
        invariant
            i <= buf@.len(),
            p == pipe_byte(pipe),
            chunk == payload_size(),
            spec_attach_packets(pipe, buf@) == packets@.map_values(|p: Vec<u8>| p@)
                + spec_attach_packets(pipe, buf@.skip(i as int)),
        decreases buf.len() - i,
    {
        let n: usize = if buf.len() - i < chunk { buf.len() - i } else { chunk };
        let mut packet: Vec<u8> = Vec::with_capacity(n + 1);
        packet.push(p);
        let mut j: usize = 0;
        while j < n
            invariant
                i + n <= buf.len(),
                packet@ == seq![p] + buf@.subrange(i as int, i + j),
                j <= n,
            decreases n - j,
        {
            packet.push(buf[i + j]);
            assert(buf@.subrange(i as int, i + j + 1) =~= buf@.subrange(i as int, i + j).push(buf@[i + j]));
            j = j + 1;
        }
        proof {
            lemma_packets_unfold(pipe, buf@, i as int, n as int);
        }
        let ghost old_packets = packets@;
        packets.push(packet);
        assert(packets@.map_values(|p: Vec<u8>| p@) =~= old_packets.map_values(|p: Vec<u8>| p@)
            + seq![seq![pipe_byte(pipe)] + buf@.subrange(i as int, i + n)]);
        i = i + n;
    }
    assert(spec_attach_packets(pipe, buf@.skip(i as int)) =~= Seq::<Seq<u8>>::empty());
    assert(packets@.map_values(|p: Vec<u8>| p@) + Seq::<Seq<u8>>::empty() =~= packets@.map_values(|p: Vec<u8>| p@));
    assert forall|k: int| 0 <= k < packets@.len() implies 2 <= (#[trigger] packets@[k])@.len() <= 8192
        && packets@[k]@[0] == (if pipe == Pipe::StdOut { 2u8 } else { 3u8 }) by {
        assert(packets@.map_values(|p: Vec<u8>| p@)[k] == packets@[k]@);
        assert(spec_attach_packets(pipe, buf@)[k] == packets@[k]@);
    }
    packets
}

/// The payloads of packets, joined in order.
pub open spec fn joined_payloads(packets: Seq<Seq<u8>>) -> Seq<u8>
    decreases packets.len(),
{
    if packets.len() == 0 {
        Seq::empty()
    } else {
        packets[0].drop_first() + joined_payloads(packets.drop_first())
    }
}

/// Attach packets lose nothing and reorder nothing: each is led by the byte
/// of its pipe and holds at most a packet's size, no payload is empty, and
/// joining the payloads gives the output back.
pub proof fn lemma_attach_packets_reassemble(pipe: Pipe, buf: Seq<u8>)
    ensures
        forall|k: int| 0 <= k < spec_attach_packets(pipe, buf).len() ==> {
            let p = #[trigger] spec_attach_packets(pipe, buf)[k];
            &&& 2 <= p.len() <= PACKET_BUF_SIZE
            &&& p[0] == pipe_byte(pipe)
        },
        joined_payloads(spec_attach_packets(pipe, buf)) == buf,
    decreases buf.len(),
{
    if buf.len() > 0 {
        let n = if buf.len() < payload_size() { buf.len() } else { payload_size() };
        let rest = buf.skip(n as int);
        lemma_attach_packets_reassemble(pipe, rest);
        let ps = spec_attach_packets(pipe, buf);
        let first = seq![pipe_byte(pipe)] + buf.take(n as int);
        assert(ps == seq![first] + spec_attach_packets(pipe, rest));
        assert(ps.drop_first() =~= spec_attach_packets(pipe, rest));
        assert(first.drop_first() =~= buf.take(n as int));
        assert(buf.take(n as int) + rest =~= buf);
        assert forall|k: int| 0 <= k < ps.len() implies {
            let p = #[trigger] ps[k];
            &&& 2 <= p.len() <= PACKET_BUF_SIZE
            &&& p[0] == pipe_byte(pipe)
        } by {
            if k > 0 {
                assert(ps[k] == spec_attach_packets(pipe, rest)[k - 1]);
            }
        }
    }
}

/// The packet that tells an attached client that the output ended.
pub const DONE_PACKET: u8 = 0;

/// The length of `s` up to its first NUL byte, or all of it.
pub open spec fn nul_index(s: Seq<u8>) -> nat
    decreases s.len(),
{
    if s.len() == 0 {
        0
    } else if s[0] == 0 {
        0
    } else {
        1 + nul_index(s.drop_first())
    }
}

/// The stdin data of a message that an attached client sent: the bytes
/// before the first NUL byte.
pub fn client_stdin(buf: &[u8]) -> (data: Vec<u8>)
    ensures
        data@ == buf@.take(nul_index(buf@) as int),
{
    let mut data: Vec<u8> = Vec::new();
    let mut i: usize = 0;
    assert(buf@.skip(0) =~= buf@);
    while i < buf.len() && buf[i] != 0
        invariant
            i <= buf@.len(),
            data@ == buf@.take(i as int),
            nul_index(buf@) == i + nul_index(buf@.skip(i as int)),
        decreases buf.len() - i,
    {
        data.push(buf[i]);
        assert(buf@.take(i + 1) =~= buf@.take(i as int).push(buf@[i as int]));
        assert(buf@.skip(i as int).drop_first() =~= buf@.skip(i + 1));
        i = i + 1;
    }
    data
}

/// What the reader of an attached client does after a read.
#[derive(Clone, Copy, Debug, PartialEq, Eq, Structural)]
pub enum AttachReadAction {
    /// Send the client's stdin data (up to its first NUL byte) to the
    /// container.
    Forward,
    /// Stop reading.
    Stop,
    /// Stop with an error.
    Fail,
    /// Read again at once.
    Retry,
    /// Report the error, then read again.
    Report,
    /// End the container's input: cancel the session, and stop.
    CancelAndStop,
    /// Wait half a second, then read again.
    Pause,
}

/// The action after a read from an attached client: data is forwarded; at
/// the end of the client's input the session ends where the request says so,
/// and reading goes on after a pause otherwise; errors are handled as for
/// container streams.
pub fn attach_read_action(outcome: ReadOutcome, stop_after_stdin_eof: bool) -> (a: AttachReadAction)
    ensures
        a == match outcome {
            ReadOutcome::Bytes(n) => if n > 0 {
                AttachReadAction::Forward
            } else if stop_after_stdin_eof {
                AttachReadAction::CancelAndStop
            } else {
                AttachReadAction::Pause
            },
            ReadOutcome::Failed(None) => AttachReadAction::Fail,
            ReadOutcome::Failed(Some(errno)) => if errno == EIO {
                AttachReadAction::Stop
            } else if errno == EBADF {
                AttachReadAction::Fail
            } else if errno == EAGAIN {
                AttachReadAction::Retry
            } else {
                AttachReadAction::Report
            },
        },
{
    match outcome {
        ReadOutcome::Bytes(n) => if n > 0 {
            AttachReadAction::Forward
        } else if stop_after_stdin_eof {
            AttachReadAction::CancelAndStop
        } else {
            AttachReadAction::Pause
        },
        ReadOutcome::Failed(None) => AttachReadAction::Fail,
        ReadOutcome::Failed(Some(errno)) => if errno == EIO {
            AttachReadAction::Stop
        } else if errno == EBADF {
            AttachReadAction::Fail
        } else if errno == EAGAIN {
            AttachReadAction::Retry
        } else {
            AttachReadAction::Report
        },
    }
}

/// How a write to an attached client ended.
#[derive(Clone, Copy, Debug, PartialEq, Eq, Structural)]
pub enum WriteOutcome {
    Written,
    WouldBlock,
    BrokenPipe,
    Failed,
}

/// What the writer of an attached client does after writing a packet.
#[derive(Clone, Copy, Debug, PartialEq, Eq, Structural)]
pub enum PacketStep {
    /// Go on with the next packet.
    Next,
    /// Drop the rest of this output.
    DropRest,
    /// Stop with an error.
    Fail,
}

/// The step after writing a packet of output: a packet that would block is
/// skipped, a broken pipe drops the rest of the output, other errors fail.
pub fn packet_step(outcome: WriteOutcome) -> (s: PacketStep)
    ensures
        s == match outcome {
            WriteOutcome::Written | WriteOutcome::WouldBlock => PacketStep::Next,
            WriteOutcome::BrokenPipe => PacketStep::DropRest,
            WriteOutcome::Failed => PacketStep::Fail,
        },
{
    match outcome {
        WriteOutcome::Written | WriteOutcome::WouldBlock => PacketStep::Next,
        WriteOutcome::BrokenPipe => PacketStep::DropRest,
        WriteOutcome::Failed => PacketStep::Fail,
    }
}

/// Whether writing the done packet went well enough: a write that would
/// block and a broken pipe are fine, other errors are not.
pub fn done_write_ok(outcome: WriteOutcome) -> (ok: bool)
    ensures
        ok == !(outcome is Failed),
{
    match outcome {
        WriteOutcome::Failed => false,
        _ => true,
    }
}

/// The packets that the writer of an attached client writes for the
/// messages in order, where every write goes through: the packets of each
/// output (`Some((data, pipe))`), and at the end of the output (`None`) the
/// done packet, after which it stops.
pub open spec fn attach_stream_writes(msgs: Seq<Option<(Seq<u8>, Pipe)>>) -> Seq<Seq<u8>>
    decreases msgs.len(),
{
    if msgs.len() == 0 {
        Seq::empty()
    } else {
        match msgs[0] {
            Some((data, pipe)) => spec_attach_packets(pipe, data) + attach_stream_writes(msgs.drop_first()),
            None => seq![seq![DONE_PACKET]],
        }
    }
}

/// An attached client that gets outputs and then the end of the output
/// receives the packets of every output, in order, then the single done
/// byte, and nothing after.
pub proof fn lemma_attach_stream(outputs: Seq<(Seq<u8>, Pipe)>, later: Seq<Option<(Seq<u8>, Pipe)>>)
    ensures
        attach_stream_writes(
            outputs.map_values(|o: (Seq<u8>, Pipe)| Some(o)) + seq![None::<(Seq<u8>, Pipe)>] + later,
        ) == outputs.map_values(|o: (Seq<u8>, Pipe)| spec_attach_packets(o.1, o.0)).flatten().push(
            seq![DONE_PACKET],
        ),
    decreases outputs.len(),
{
    let msgs = outputs.map_values(|o: (Seq<u8>, Pipe)| Some(o)) + seq![None::<(Seq<u8>, Pipe)>] + later;
    let packets = outputs.map_values(|o: (Seq<u8>, Pipe)| spec_attach_packets(o.1, o.0));
    if outputs.len() == 0 {
        assert(msgs[0] == None::<(Seq<u8>, Pipe)>);
        assert(packets =~= Seq::<Seq<Seq<u8>>>::empty());
        assert(packets.flatten() =~= Seq::<Seq<u8>>::empty());
    } else {
        let tail = outputs.drop_first();
        lemma_attach_stream(tail, later);
        assert(msgs[0] == Some(outputs[0]));
        assert(msgs.drop_first() =~= tail.map_values(|o: (Seq<u8>, Pipe)| Some(o)) + seq![
            None::<(Seq<u8>, Pipe)>,
        ] + later);
        assert(packets.drop_first() =~= tail.map_values(|o: (Seq<u8>, Pipe)| spec_attach_packets(o.1, o.0)));
        assert(packets.first() == spec_attach_packets(outputs[0].1, outputs[0].0));
        assert(packets.flatten() == packets.first() + packets.drop_first().flatten());
        assert(packets.flatten().push(seq![DONE_PACKET]) =~= packets.first() + packets.drop_first().flatten().push(
            seq![DONE_PACKET],
        ));
    }
}

} // verus!
