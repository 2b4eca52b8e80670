//! File descriptor passing over a unix `SOCK_SEQPACKET` socket: the slots
//! that hold received file descriptors, and the wire format of requests and
//! responses.
//!
//! A request is one little-endian `u64`, `(request_id << 32) | num_fds`,
//! with the file descriptors passed beside it. A response repeats the
//! header, followed by one little-endian `u64` slot per file descriptor. On
//! error, `num_fds` is set to `0xffff_ffff` and an error message follows.

use vstd::prelude::*;
use std::collections::HashMap;
use vstd::string::StringExecFns;
use crate::text::{append_decimal, decimal};

verus! {

broadcast use vstd::std_specs::hash::group_hash_axioms;

/// The number of distinct slot values.
pub open spec fn slot_space() -> int {
    0x1_0000_0000_0000_0000
}

/// The slot `d` steps after `last`, wrapping around.
pub open spec fn slot_after(last: u64, d: int) -> u64 {
    ((last as int + d) % slot_space()) as u64
}

/// The slots that hold file descriptors, and the slot handed out last.
pub struct SlotState<T> {
    last: u64,
    fds: HashMap<u64, T>,
}

proof fn lemma_slot_step(last: u64, d: int)
    requires
        0 <= d < slot_space(),
    ensures
        slot_after(last, d + 1) == (if slot_after(last, d) == u64::MAX { 0 } else { slot_after(last, d) + 1 }),
{
    assert(slot_after(last, d + 1) == (if slot_after(last, d) == u64::MAX { 0 } else { slot_after(last, d) + 1 })) by (nonlinear_arith)
        requires
            0 <= d < 0x1_0000_0000_0000_0000,
            last < 0x1_0000_0000_0000_0000,
    ;
}

proof fn lemma_slots_distinct(last: u64, a: int, b: int)
    requires
        1 <= a < b <= slot_space(),
    ensures
        slot_after(last, a) != slot_after(last, b),
{
    assert(slot_after(last, a) != slot_after(last, b)) by (nonlinear_arith)
        requires
            1 <= a < b <= 0x1_0000_0000_0000_0000,
            last < 0x1_0000_0000_0000_0000,
    ;
}

impl<T> SlotState<T> {
    /// The file descriptors by slot.
    pub closed spec fn fds(&self) -> Map<u64, T> {
        self.fds@
    }

    /// The slot handed out last.
    pub closed spec fn last(&self) -> u64 {
        self.last
    }

    /// No slot is taken and none was handed out.
    pub fn new() -> (s: Self)
        ensures
            s.fds() == Map::<u64, T>::empty(),
            s.last() == 0,
    {
        SlotState { last: 0, fds: HashMap::new() }
    }

    /// Put `fd` into the first free slot after the one handed out last,
    /// counting on from there and wrapping around, and hand that slot out.
    pub fn add(&mut self, fd: T) -> (slot: u64)
        ensures
            !old(self).fds().contains_key(slot),
            final(self).fds() == old(self).fds().insert(slot, fd),
            final(self).last() == slot,
            exists|d: int| 1 <= d <= slot_space() && slot == slot_after(old(self).last(), d)
                && forall|e: int| 1 <= e < d ==> old(self).fds().contains_key(#[trigger] slot_after(old(self).last(), e)),
    {
        let ghost last0 = self.last;
        let ghost dom = self.fds@.dom();
        let n = self.fds.len();
        assert(dom.len() == n);
        let mut slot: u64 = if self.last == u64::MAX { 0 } else { self.last + 1 };
        let ghost mut d: int = 1;
        let ghost mut tried: Set<u64> = Set::empty();
        proof {
            lemma_slot_step(last0, 0);
            assert(slot_after(last0, 0) == last0) by (nonlinear_arith)
                requires last0 < 0x1_0000_0000_0000_0000;
        }
        while self.fds.contains_key(&slot)
            invariant
                self.fds@.dom() == dom,
                self.last == last0,
                1 <= d <= slot_space(),
                dom.len() < slot_space(),
                d - 1 == tried.len(),
                tried.finite(),
                tried.subset_of(dom),
                slot == slot_after(last0, d),
                forall|e: int| 1 <= e < d ==> tried.contains(#[trigger] slot_after(last0, e)),
                forall|x: u64| tried.contains(x) ==> exists|e: int| 1 <= e < d && x == #[trigger] slot_after(last0, e),
            decreases dom.len() - tried.len(),
        {
            proof {
                assert(self.fds@.dom().finite());
                if tried.contains(slot) {
                    let e = choose|e: int| 1 <= e < d && slot == #[trigger] slot_after(last0, e);
                    lemma_slots_distinct(last0, e, d);
                }
                tried = tried.insert(slot);
                vstd::set_lib::lemma_len_subset(tried, dom);
                assert(d < slot_space());
                lemma_slot_step(last0, d);
                d = d + 1;
                assert forall|x: u64| tried.contains(x) implies exists|e: int| 1 <= e < d && x == #[trigger] slot_after(last0, e) by {
                    if x == slot_after(last0, d - 1) {
                        assert(1 <= d - 1 < d);
                    } else {
                        let e = choose|e: int| 1 <= e < d - 1 && x == #[trigger] slot_after(last0, e);
                        assert(1 <= e < d);
                    }
                }
            }
            slot = if slot == u64::MAX { 0 } else { slot + 1 };
        }
        proof {
            assert(self.fds@.dom().finite());
            vstd::set_lib::lemma_len_subset(tried, dom);
            assert forall|e: int| 1 <= e < d implies old(self).fds().contains_key(#[trigger] slot_after(old(self).last(), e)) by {
                assert(tried.contains(slot_after(last0, e)));
            }
            assert(1 <= d <= slot_space() && slot == slot_after(old(self).last(), d));
        }
        self.fds.insert(slot, fd);
        self.last = slot;
        slot
    }

    /// Take the file descriptor out of `slot`.
    pub fn take(&mut self, slot: u64) -> (r: Result<T, FdSocketError>)
        ensures
            final(self).fds() == old(self).fds().remove(slot),
            final(self).last() == old(self).last(),
            match r {
                Ok(fd) => old(self).fds().contains_key(slot) && fd == old(self).fds()[slot],
                Err(e) => !old(self).fds().contains_key(slot) && e == FdSocketError::NoFileDescriptor(slot),
            },
    {
        match self.fds.remove(&slot) {
            Some(fd) => Ok(fd),
            None => Err(FdSocketError::NoFileDescriptor(slot)),
        }
    }

    /// Take the file descriptors out of `slots`, in order, stopping at the
    /// first slot that holds none (or that was taken already): the slots
    /// before it stay emptied.
    pub fn take_all(&mut self, slots: &[u64]) -> (r: Result<Vec<T>, FdSocketError>)
        ensures
            final(self).last() == old(self).last(),
            match r {
                Ok(fds) => {
                    &&& forall|i: int| 0 <= i < slots@.len() ==> old(self).fds().contains_key(#[trigger] slots@[i])
                    &&& forall|i: int, j: int| 0 <= i < j < slots@.len() ==> #[trigger] slots@[i] != #[trigger] slots@[j]
                    &&& fds@.len() == slots@.len()
                    &&& forall|i: int| 0 <= i < slots@.len() ==> #[trigger] fds@[i] == old(self).fds()[slots@[i]]
                    &&& final(self).fds() == old(self).fds().remove_keys(slots@.to_set())
                },
                Err(FdSocketError::NoFileDescriptor(s)) => exists|i: int|
                    #![trigger slots@.take(i)]
                    0 <= i < slots@.len() && slots@[i] == s
                    && (forall|j: int| 0 <= j < i ==> old(self).fds().contains_key(#[trigger] slots@[j]))
                    && (forall|j: int, k: int| 0 <= j < k < i ==> #[trigger] slots@[j] != #[trigger] slots@[k])
                    && !old(self).fds().remove_keys(slots@.take(i).to_set()).contains_key(s)
                    && final(self).fds() == old(self).fds().remove_keys(slots@.take(i).to_set()),
            },
    {
        let mut out: Vec<T> = Vec::new();
        let mut i: usize = 0;
        while i < slots.len()
            invariant
                i <= slots.len(),
                self.last == old(self).last(),
                self.fds@ == old(self).fds().remove_keys(slots@.take(i as int).to_set()),
                out@.len() == i,
                forall|j: int| 0 <= j < i ==> old(self).fds().contains_key(#[trigger] slots@[j]),
                forall|j: int| 0 <= j < i ==> #[trigger] out@[j] == old(self).fds()[slots@[j]],
                forall|j: int, k: int| 0 <= j < k < i ==> #[trigger] slots@[j] != #[trigger] slots@[k],
            decreases slots.len() - i,
        {
            let ghost before = self.fds@;
            match self.take(slots[i]) {
                Ok(fd) => {
                    proof {
                        assert(!slots@.take(i as int).to_set().contains(slots@[i as int]));
                        assert forall|j: int| 0 <= j < i implies slots@[j] != slots@[i as int] by {
                            assert(slots@.take(i as int)[j] == slots@[j]);
                            assert(slots@.take(i as int).to_set().contains(slots@[j]));
                        }
                        assert(fd == old(self).fds()[slots@[i as int]]);
                    }
                    out.push(fd);
                    proof {
                        assert(slots@.take(i + 1) =~= slots@.take(i as int).push(slots@[i as int]));
                        slots@.take(i as int).lemma_push_to_set_commute(slots@[i as int]);
                        assert(self.fds@ =~= old(self).fds().remove_keys(slots@.take(i + 1).to_set()));
                        assert(old(self).fds().contains_key(slots@[i as int]));
                    }
                },
                Err(e) => {
                    proof {
                        assert(self.fds@ == before);
                        assert(slots@.take(i as int).len() == i);
                    }
                    return Err(e);
                },
            }
            i = i + 1;
        }
        assert(slots@.take(i as int) =~= slots@);
        Ok(out)
    }

    /// Empty the slots of a closed connection.
    pub fn close(&mut self, slots: &[u64])
        ensures
            final(self).fds() == old(self).fds().remove_keys(slots@.to_set()),
            final(self).last() == old(self).last(),
    {
        let mut i: usize = 0;
        while i < slots.len()
            invariant
                i <= slots.len(),
                self.last == old(self).last(),
                self.fds@ == old(self).fds().remove_keys(slots@.take(i as int).to_set()),
            decreases slots.len() - i,
        {
            self.fds.remove(&slots[i]);
            assert(slots@.take(i + 1) =~= slots@.take(i as int).push(slots@[i as int]));
            proof {
                slots@.take(i as int).lemma_push_to_set_commute(slots@[i as int]);
            }
            assert(self.fds@ =~= old(self).fds().remove_keys(slots@.take(i + 1).to_set()));
            i = i + 1;
        }
        assert(slots@.take(slots.len() as int) =~= slots@);
    }
}

/// Why the file descriptor socket refuses a request.
#[derive(Clone, Copy, Debug, PartialEq, Eq, Structural)]
pub enum FdSocketError {
    /// No file descriptor is held in the slot.
    NoFileDescriptor(u64),
}

/// The `n` little-endian bytes of `x`.
pub open spec fn le_bytes(x: nat, n: nat) -> Seq<u8>
    decreases n,
{
    if n == 0 {
        Seq::empty()
    } else {
        seq![(x % 256) as u8] + le_bytes(x / 256, (n - 1) as nat)
    }
}

/// The number whose little-endian bytes are `s`.
pub open spec fn le_value(s: Seq<u8>) -> nat
    decreases s.len(),
{
    if s.len() == 0 {
        0
    } else {
        s[0] as nat + 256 * le_value(s.drop_first())
    }
}

/// The eight little-endian bytes of each number of `xs`, joined.
pub open spec fn le_words(xs: Seq<u64>) -> Seq<u8>
    decreases xs.len(),
{
    if xs.len() == 0 {
        Seq::empty()
    } else {
        le_words(xs.drop_last()) + le_bytes(xs.last() as nat, 8)
    }
}

/// Append the eight little-endian bytes of `x` to `out`.
pub fn push_le_u64(out: &mut Vec<u8>, x: u64)
    ensures
        final(out)@ == old(out)@ + le_bytes(x as nat, 8),
{
    let mut v: u64 = x;
    let mut i: usize = 0;
    while i < 8
        invariant
            i <= 8,
            old(out)@ + le_bytes(x as nat, 8) == out@ + le_bytes(v as nat, (8 - i) as nat),
        decreases 8 - i,
    {
        let ghost before = out@;
        out.push((v % 256) as u8);
        assert(le_bytes(v as nat, (8 - i) as nat) == seq![(v % 256) as u8] + le_bytes((v / 256) as nat, (8 - i - 1) as nat));
        assert(out@ + le_bytes((v / 256) as nat, (8 - i - 1) as nat) =~= before + le_bytes(v as nat, (8 - i) as nat));
        v = v / 256;
        i = i + 1;
    }
    assert(out@ + le_bytes(v as nat, 0) =~= out@);
}

/// std `u64::from_le_bytes`: the number whose eight little-endian bytes are
/// the first eight of `bytes`.
#[verifier::external_body]
fn read_le_u64(bytes: &[u8]) -> (x: u64)
    requires
        bytes@.len() >= 8,
    ensures
        x == le_value(bytes@.take(8)),
{
    let mut word = [0u8; 8];
    word.copy_from_slice(&bytes[..8]);
    u64::from_le_bytes(word)
}

/// What one received message of the file descriptor socket is.
#[derive(Clone, Copy, Debug, PartialEq, Eq, Structural)]
pub enum FdRequest {
    /// The peer closed the connection.
    Eof,
    /// A request header: `(request_id << 32) | num_fds`.
    Header(u64),
    /// A message of another size, which is ignored.
    Invalid,
}

/// Decode a message of `received` bytes held in `buf`: none means the end of
/// the connection, eight a request header, any other count is ignored.
pub fn decode_request(received: usize, buf: &[u8]) -> (r: FdRequest)
    requires
        buf@.len() >= 8,
    ensures
        received == 0 ==> r == FdRequest::Eof,
        received == 8 ==> r == FdRequest::Header(le_value(buf@.take(8)) as u64),
        received != 0 && received != 8 ==> r == FdRequest::Invalid,
{
    if received == 0 {
        FdRequest::Eof
    } else if received == 8 {
        FdRequest::Header(read_le_u64(buf))
    } else {
        FdRequest::Invalid
    }
}

/// The number of file descriptors that a request header announces: its
/// lowest byte.
pub fn requested_fds(header: u64) -> (n: usize)
    ensures
        n == header % 256,
{
    let n = header & 0xff;
    assert(n == header % 256) by (bit_vector)
        requires
            n == header & 0xff,
    ;
    n as usize
}

/// The response to a request whose file descriptors went into `slots`: the
/// request header, then each slot, as little-endian `u64`s.
pub fn encode_response(header: u64, slots: &[u64]) -> (r: Vec<u8>)
    ensures
        r@ == le_bytes(header as nat, 8) + le_words(slots@),
{
    let mut out: Vec<u8> = Vec::new();
    push_le_u64(&mut out, header);
    let mut i: usize = 0;
    assert(slots@.take(0) =~= Seq::<u64>::empty());
    while i < slots.len()
        invariant
            i <= slots.len(),
            out@ == le_bytes(header as nat, 8) + le_words(slots@.take(i as int)),
        decreases slots.len() - i,
    {
        push_le_u64(&mut out, slots[i]);
        assert(slots@.take(i + 1).drop_last() =~= slots@.take(i as int));
        i = i + 1;
    }
    assert(slots@.take(slots.len() as int) =~= slots@);
    out
}

/// The header of an error response: the request header with `num_fds` set
/// to `0xffff_ffff`.
pub open spec fn error_header(header: u64) -> u64 {
    header | 0xffff_ffff
}

/// The response to a refused request: the error header as a little-endian
/// `u64`, then the error message.
pub fn encode_error(header: u64, message: &[u8]) -> (r: Vec<u8>)
    ensures
        r@ == le_bytes(error_header(header) as nat, 8) + message@,
        error_header(header) % 0x1_0000_0000 == 0xffff_ffff,
        error_header(header) / 0x1_0000_0000 == header / 0x1_0000_0000,
{
    assert((header | 0xffff_ffffu64) % 0x1_0000_0000 == 0xffff_ffff
        && (header | 0xffff_ffffu64) / 0x1_0000_0000 == header / 0x1_0000_0000) by (bit_vector);
    let mut out: Vec<u8> = Vec::new();
    push_le_u64(&mut out, header | 0xffff_ffff);
    let mut i: usize = 0;
    while i < message.len()
        invariant
            i <= message.len(),
            out@ == le_bytes(error_header(header) as nat, 8) + message@.take(i as int),
        decreases message.len() - i,
    {
        out.push(message[i]);
        assert(message@.take(i + 1) =~= message@.take(i as int).push(message@[i as int]));
        i = i + 1;
    }
    assert(message@.take(message.len() as int) =~= message@);
    out
}

/// The message that refuses a request which passed `received` file
/// descriptors but announced `expected`.
pub fn fd_count_error(received: usize, expected: usize) -> (m: String)
    ensures
        m@ == "received "@ + decimal(received as nat) + " fds, but expected "@ + decimal(expected as nat) + " fds"@,
{
    let mut m = String::new();
    m.append("received ");
    append_decimal(&mut m, received as u64);
    m.append(" fds, but expected ");
    append_decimal(&mut m, expected as u64);
    m.append(" fds");
    m
}

/// What the server of the file descriptor socket does with a message.
#[derive(Clone, Copy, Debug, PartialEq, Eq, Structural)]
pub enum ServeStep {
    /// The client closed the connection: stop serving it.
    Stop,
    /// Ignore a message of the wrong size.
    Skip,
    /// An empty request: close the file descriptors of the connection, and
    /// send no response.
    CloseAll,
    /// Refuse the request with the error response for a count mismatch.
    Refuse,
    /// Put the received file descriptors into slots and send the response.
    Accept,
}

/// The step for the request `req` that came with `received` file
/// descriptors.
pub open spec fn spec_serve_step(req: FdRequest, received: usize) -> ServeStep {
    match req {
        FdRequest::Eof => ServeStep::Stop,
        FdRequest::Invalid => ServeStep::Skip,
        FdRequest::Header(h) => if h == 0 {
            ServeStep::CloseAll
        } else if received != h % 256 {
            ServeStep::Refuse
        } else {
            ServeStep::Accept
        },
    }
}

/// The step of the server for a request and the file descriptors it
/// brought.
pub fn serve_step(req: FdRequest, received: usize) -> (s: ServeStep)
    ensures
        s == spec_serve_step(req, received),
        req is Eof ==> s is Stop,
        req is Invalid ==> s is Skip,
        req == FdRequest::Header(0) ==> s is CloseAll,
        req matches FdRequest::Header(h) ==> (h != 0 ==> (s is Accept <==> received == h % 256) && (s is Accept
            || s is Refuse)),
{
    match req {
        FdRequest::Eof => ServeStep::Stop,
        FdRequest::Invalid => ServeStep::Skip,
        FdRequest::Header(h) => if h == 0 {
            ServeStep::CloseAll
        } else if received != requested_fds(h) {
            ServeStep::Refuse
        } else {
            ServeStep::Accept
        },
    }
}

/// A file descriptor put into a free slot is what taking that slot gives
/// back, and taking it leaves the other slots as they were.
pub proof fn lemma_add_then_take<T>(fds: Map<u64, T>, slot: u64, fd: T)
    requires
        !fds.contains_key(slot),
    ensures
        fds.insert(slot, fd).contains_key(slot),
        fds.insert(slot, fd)[slot] == fd,
        fds.insert(slot, fd).remove(slot) == fds,
{
    assert(fds.insert(slot, fd).remove(slot) =~= fds);
}

} // verus!
