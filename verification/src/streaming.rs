//! The streaming server: the sessions of exec, attach and port forward
//! requests, the URLs that reach them, and the frames that carry a session's
//! data over its websocket.

use vstd::prelude::*;
use vstd::string::StringExecFns;
use crate::bounded_hashmap::{lemma_len_within_capacity, BoundedHashMap};
use crate::text::{decimal, i64_to_string, signed_decimal, u64_to_string};
use crate::cri_log::append_bytes;
use vstd::utf8::encode_utf8;

verus! {

/// The address the streaming server listens on.
pub const ADDR: &'static str = "127.0.0.1";

/// The websocket protocol of exec and attach sessions.
pub const PROTOCOL_V5: &'static str = "v5.channel.k8s.io";

/// The protocol of port forward sessions.
pub const PROTOCOL_PORT_FORWARD: &'static str = "SPDY/3.1+portforward.k8s.io";

/// The path of exec sessions.
pub const EXEC_PATH: &'static str = "exec";

/// The path of attach sessions.
pub const ATTACH_PATH: &'static str = "attach";

/// The path of port forward sessions.
pub const PORT_FORWARD_PATH: &'static str = "port-forward";

/// The lead byte of stdin data from a client.
pub const STDIN_BYTE: u8 = 0;

/// The lead byte of stdout data to a client.
pub const STDOUT_BYTE: u8 = 1;

/// The lead byte of stderr data to a client.
pub const STDERR_BYTE: u8 = 2;

/// The lead byte of the error status of a session.
pub const STREAM_ERR_BYTE: u8 = 3;

/// The lead byte of a terminal resize event from a client.
pub const RESIZE_BYTE: u8 = 4;

/// The lead byte of a close request from a client.
pub const CLOSE_BYTE: u8 = 255;

/// The route of a session path: `/<p>/{token}`, where the token is the
/// session's UUID.
pub fn path_for(p: &str) -> (r: String)
    ensures
        r@ == "/"@ + p@ + "/{token}"@,
{
    let mut r = String::from_str("/");
    r.append(p);
    r.append("/{token}");
    r
}

/// The lower-case hexadecimal digit of `d`, for `d < 16`.
pub open spec fn hex_char(d: nat) -> char {
    if d < 10 {
        (48 + d) as char
    } else {
        (87 + d) as char
    }
}

/// The `n` lowest hexadecimal digits of `x`, most significant first.
pub open spec fn hex_digits(x: nat, n: nat) -> Seq<char>
    decreases n,
{
    if n == 0 {
        Seq::empty()
    } else {
        hex_digits(x / 16, (n - 1) as nat).push(hex_char(x % 16))
    }
}

/// The hyphenated form of a UUID: its 32 hexadecimal digits in lower case,
/// grouped 8-4-4-4-12.
pub open spec fn uuid_hyphenated(x: u128) -> Seq<char> {
    let h = hex_digits(x as nat, 32);
    h.subrange(0, 8) + "-"@ + h.subrange(8, 12) + "-"@ + h.subrange(12, 16) + "-"@ + h.subrange(16, 20)
        + "-"@ + h.subrange(20, 32)
}

/// The number whose big-endian bytes are `s`.
pub open spec fn be_value(s: Seq<u8>) -> nat
    decreases s.len(),
{
    if s.len() == 0 {
        0
    } else {
        be_value(s.drop_last()) * 256 + s.last() as nat
    }
}

/// The bytes of a random (version 4) UUID made from the random bytes `b`:
/// the high nibble of byte 6 is the version, 4, and the two high bits of
/// byte 8 are the variant, `10`.
pub open spec fn v4_bytes(b: Seq<u8>) -> Seq<u8> {
    b.update(6, (b[6] & 0x0fu8) | 0x40u8).update(8, (b[8] & 0x3fu8) | 0x80u8)
}

/// uuid `Builder::from_random_bytes(..).into_uuid().as_u128()`: the random
/// UUID made from `random`, as its 128-bit value. The builder sets the
/// version and variant bits of the bytes, and `as_u128` reads them in
/// big-endian order.
#[verifier::external_body]
fn uuid_from_random_bytes(random: [u8; 16]) -> (x: u128)
    ensures
        x == be_value(v4_bytes(random@)),
        (x >> 76u128) & 15u128 == 4u128,
        (x >> 62u128) & 3u128 == 2u128,
{
    uuid::Builder::from_random_bytes(random).into_uuid().as_u128()
}

/// uuid `Uuid::to_string` on `Uuid::from_u128(x)`: the hyphenated lower-case
/// form of the UUID whose value is `x`.
#[verifier::external_body]
fn uuid_text(x: u128) -> (s: String)
    ensures
        s@ == uuid_hyphenated(x),
{
    uuid::Uuid::from_u128(x).to_string()
}

/// The URL of the session `key` under the path `p` of a server on `port`:
/// `http://127.0.0.1:<port>/<p>/<uuid>`.
pub open spec fn spec_url(port: u16, p: Seq<char>, key: u128) -> Seq<char> {
    "http://"@ + ADDR@ + ":"@ + decimal(port as nat) + "/"@ + p + "/"@ + uuid_hyphenated(key)
}

/// The data of a port forward session.
pub struct PortForwardSession {
    /// The network namespace to forward into.
    pub net_ns_path: String,
}

/// A session of the streaming server, with what the caller keeps of an exec
/// (`E`) or attach (`A`) session.
pub enum Session<E, A> {
    Exec(E),
    Attach(A),
    PortForward(PortForwardSession),
}

/// The streaming server: whether it runs, its port, and its open sessions
/// by UUID.
pub struct StreamingServer<E, A> {
    running: bool,
    port: u16,
    state: BoundedHashMap<Session<E, A>>,
}

impl<E, A> StreamingServer<E, A> {
    /// Whether the server runs.
    pub closed spec fn is_running(&self) -> bool {
        self.running
    }

    /// The port of the server.
    pub closed spec fn spec_port(&self) -> u16 {
        self.port
    }

    /// The open sessions by UUID.
    pub closed spec fn sessions(&self) -> Map<u128, Session<E, A>> {
        self.state.values()
    }

    /// The session `key` is open and has not expired at `now`, on the clock
    /// of the sessions.
    pub closed spec fn session_live_at(&self, key: u128, now: u64) -> bool {
        self.state.live_at(key, now)
    }

    /// The server is well formed.
    pub closed spec fn wf(&self) -> bool {
        self.state.wf()
    }

    /// A server that does not run yet and has no sessions.
    pub fn new() -> (s: Self)
        ensures
            s.wf(),
            !s.is_running(),
            s.spec_port() == 0,
            s.sessions() == Map::<u128, Session<E, A>>::empty(),
    {
        StreamingServer { running: false, port: 0, state: BoundedHashMap::new() }
    }

    /// Whether the server still has to be started.
    pub fn needs_start(&self) -> (b: bool)
        ensures
            b == !self.is_running(),
    {
        !self.running
    }

    /// Record that the server was started and listens on `port`.
    pub fn set_started(&mut self, port: u16)
        requires
            old(self).wf(),
        ensures
            final(self).wf(),
            final(self).is_running(),
            final(self).spec_port() == port,
            final(self).sessions() == old(self).sessions(),
    {
        self.running = true;
        self.port = port;
    }

    /// The port of the server.
    pub fn port(&self) -> (p: u16)
        ensures
            p == self.spec_port(),
    {
        self.port
    }

    /// The URL of the session `key` under the path `p`.
    pub fn url_for(&self, p: &str, key: u128) -> (u: String)
        ensures
            u@ == spec_url(self.spec_port(), p@, key),
    {
        let mut u = String::from_str("http://");
        u.append(ADDR);
        u.append(":");
        let port = u64_to_string(self.port as u64);
        u.append(port.as_str());
        u.append("/");
        u.append(p);
        u.append("/");
        let id = uuid_text(key);
        u.append(id.as_str());
        u
    }

    /// Open a session under the random UUID made from `random`, and give its
    /// URL under `p`.
    fn open(&mut self, p: &str, session: Session<E, A>, random: [u8; 16]) -> (r: (u128, String))
        requires
            old(self).wf(),
        ensures
            final(self).wf(),
            final(self).is_running() == old(self).is_running(),
            final(self).spec_port() == old(self).spec_port(),
            r.0 == be_value(v4_bytes(random@)),
            final(self).sessions().contains_key(r.0),
            final(self).sessions()[r.0] == session,
            r.1@ == spec_url(old(self).spec_port(), p@, r.0),
    {
        let key = uuid_from_random_bytes(random);
        self.state.insert(key, session);
        let url = self.url_for(p, key);
        (key, url)
    }

    /// Open an exec session under the UUID made from the random bytes
    /// `random`, and give its URL.
    pub fn exec_url(&mut self, session: E, random: [u8; 16]) -> (r: (u128, String))
        requires
            old(self).wf(),
        ensures
            final(self).wf(),
            r.0 == be_value(v4_bytes(random@)),
            final(self).sessions()[r.0] == Session::<E, A>::Exec(session),
            r.1@ == spec_url(old(self).spec_port(), EXEC_PATH@, r.0),
    {
        self.open(EXEC_PATH, Session::Exec(session), random)
    }

    /// Open an attach session under the UUID made from the random bytes
    /// `random`, and give its URL.
    pub fn attach_url(&mut self, session: A, random: [u8; 16]) -> (r: (u128, String))
        requires
            old(self).wf(),
        ensures
            final(self).wf(),
            r.0 == be_value(v4_bytes(random@)),
            final(self).sessions()[r.0] == Session::<E, A>::Attach(session),
            r.1@ == spec_url(old(self).spec_port(), ATTACH_PATH@, r.0),
    {
        self.open(ATTACH_PATH, Session::Attach(session), random)
    }

    /// Open a port forward session into the network namespace
    /// `net_ns_path`, under the UUID made from the random bytes `random`, and
    /// give its URL.
    pub fn port_forward_url(&mut self, net_ns_path: String, random: [u8; 16]) -> (r: (u128, String))
        requires
            old(self).wf(),
        ensures
            final(self).wf(),
            r.0 == be_value(v4_bytes(random@)),
            final(self).sessions()[r.0] matches Session::PortForward(s) && s.net_ns_path@ == net_ns_path@,
            r.1@ == spec_url(old(self).spec_port(), PORT_FORWARD_PATH@, r.0),
    {
        self.open(PORT_FORWARD_PATH, Session::PortForward(PortForwardSession { net_ns_path }), random)
    }

    /// Take the session of a connection for the token `key`: each session
    /// serves one connection; a token without a session, or whose session
    /// expired, is not found.
    pub fn take_session(&mut self, key: u128) -> (r: Option<Session<E, A>>)
        requires
            old(self).wf(),
        ensures
            final(self).wf(),
            final(self).sessions() == old(self).sessions().remove(key),
            r matches Some(s) ==> old(self).sessions().contains_key(key) && s == old(self).sessions()[key],
            !old(self).sessions().contains_key(key) ==> r is None,
            exists|now: u64| r == (if #[trigger] old(self).session_live_at(key, now) {
                Some(old(self).sessions()[key])
            } else {
                None::<Session<E, A>>
            }),
    {
        proof {
            lemma_len_within_capacity(self.state);
        }
        let r = self.state.remove(&key);
        proof {
            let now = choose|now: u64| r == (if #[trigger] old(self).state.live_at(key, now) {
                Some(old(self).state.values()[key])
            } else {
                None::<Session<E, A>>
            });
            assert(old(self).session_live_at(key, now) == old(self).state.live_at(key, now));
        }
        r
    }
}

/// Data framed for a client: the stream's lead byte, then the data.
pub fn frame(stream_byte: u8, data: &[u8]) -> (f: Vec<u8>)
    ensures
        f@ == seq![stream_byte] + data@,
{
    let mut f: Vec<u8> = Vec::new();
    f.push(stream_byte);
    let mut i: usize = 0;
    while i < data.len()
        invariant
            i <= data@.len(),
            f@ == seq![stream_byte] + data@.take(i as int),
        decreases data.len() - i,
    {
        f.push(data[i]);
        assert(data@.take(i + 1) =~= data@.take(i as int).push(data@[i as int]));
        i = i + 1;
    }
    assert(data@.take(i as int) =~= data@);
    f
}

/// A cause of a failed exec command.
pub struct ErrorCause {
    pub reason: &'static str,
    pub message: String,
}

/// The details of a failed exec command.
pub struct ErrorDetails {
    pub causes: Vec<ErrorCause>,
}

/// The status that an exec session reports for a command that failed.
pub struct ErrorMessage {
    pub status: &'static str,
    pub reason: &'static str,
    pub details: ErrorDetails,
    pub message: &'static str,
}

impl ErrorMessage {
    /// The status of a command that exited with the non-zero `exit_code`.
    pub fn new(exit_code: i32) -> (m: Self)
        ensures
            m.status@ == "Failure"@,
            m.reason@ == "NonZeroExitCode"@,
            m.message@ == "command terminated with non-zero exit code"@,
            m.details.causes@.len() == 1,
            m.details.causes@[0].reason@ == "ExitCode"@,
            m.details.causes@[0].message@ == signed_decimal(exit_code as int),
    {
        let cause = ErrorCause { reason: "ExitCode", message: i64_to_string(exit_code as i64) };
        let mut causes: Vec<ErrorCause> = Vec::new();
        causes.push(cause);
        ErrorMessage {
            status: "Failure",
            reason: "NonZeroExitCode",
            details: ErrorDetails { causes },
            message: "command terminated with non-zero exit code",
        }
    }
}

/// The JSON of the status of a command that exited with the non-zero
/// `exit_code`, the fields of `ErrorMessage::new(exit_code)` in order.
pub open spec fn error_json(exit_code: i32) -> Seq<char> {
    "{\"status\":\"Failure\",\"reason\":\"NonZeroExitCode\",\"details\":{\"causes\":[{\"reason\":\"ExitCode\",\"message\":\""@
        + signed_decimal(exit_code as int)
        + "\"}]},\"message\":\"command terminated with non-zero exit code\"}"@
}

/// The frame that reports a failed command to the client: the error byte,
/// then the JSON of its status.
pub open spec fn spec_error_frame(exit_code: i32) -> Seq<u8> {
    seq![STREAM_ERR_BYTE] + encode_utf8(error_json(exit_code))
}

/// The frame that reports the command's exit with the non-zero `exit_code`.
pub fn error_frame(exit_code: i32) -> (f: Vec<u8>)
    ensures
        f@ == spec_error_frame(exit_code),
{
    let mut text = String::from_str(
        "{\"status\":\"Failure\",\"reason\":\"NonZeroExitCode\",\"details\":{\"causes\":[{\"reason\":\"ExitCode\",\"message\":\"",
    );
    let code = i64_to_string(exit_code as i64);
    text.append(code.as_str());
    text.append("\"}]},\"message\":\"command terminated with non-zero exit code\"}");
    let mut f: Vec<u8> = Vec::new();
    f.push(STREAM_ERR_BYTE);
    append_bytes(&mut f, text.as_str().as_bytes());
    assert(f@ =~= spec_error_frame(exit_code));
    f
}

/// What a session of the streaming server gets.
pub enum StreamEvent {
    /// A message from the client for stdin.
    Client(Vec<u8>),
    /// Output of the container on stdout.
    Stdout(Vec<u8>),
    /// Output of the container on stderr.
    Stderr(Vec<u8>),
    /// The exec command exited with this code.
    Exited(i32),
    /// The attached container is gone.
    Cancelled,
}

/// What a session does with an event.
#[derive(Clone, Copy, Debug, PartialEq, Eq, Structural)]
pub enum StreamAction {
    /// Nothing.
    Ignore,
    /// Send the client message, without its lead byte, to the container's
    /// stdin.
    Stdin,
    /// Resize the terminal as the JSON resize event in the client message,
    /// after its lead byte, says.
    Resize,
    /// Report a client message with this unknown lead byte, and go on.
    Unknown(u8),
    /// Send the output to the client, framed with this lead byte.
    Send(u8),
    /// Send the status of a failed command, with this exit code, framed with
    /// the error byte, then end the session.
    Fail(i32),
    /// End the session.
    Close,
}

/// Which streams a session serves.
#[derive(Clone, Copy, Debug, PartialEq, Eq, Structural)]
pub struct StreamFlags {
    pub stdin: bool,
    pub stdout: bool,
    pub stderr: bool,
}

/// The action of a session on an event: client messages only count where
/// stdin is served, and are told apart by their lead byte; output is sent
/// where its stream is served; an exit ends the session, after reporting a
/// non-zero code; a cancellation ends it.
pub open spec fn spec_stream_action(flags: StreamFlags, event: StreamEvent) -> StreamAction {
    match event {
        StreamEvent::Client(data) => if !flags.stdin || data@.len() == 0 {
            StreamAction::Ignore
        } else if data@[0] == STDIN_BYTE {
            StreamAction::Stdin
        } else if data@[0] == RESIZE_BYTE {
            StreamAction::Resize
        } else if data@[0] == CLOSE_BYTE {
            StreamAction::Close
        } else {
            StreamAction::Unknown(data@[0])
        },
        StreamEvent::Stdout(_) => if flags.stdout {
            StreamAction::Send(STDOUT_BYTE)
        } else {
            StreamAction::Ignore
        },
        StreamEvent::Stderr(_) => if flags.stderr {
            StreamAction::Send(STDERR_BYTE)
        } else {
            StreamAction::Ignore
        },
        StreamEvent::Exited(code) => if code != 0 {
            StreamAction::Fail(code)
        } else {
            StreamAction::Close
        },
        StreamEvent::Cancelled => StreamAction::Close,
    }
}

/// A session sends container output only on the streams it serves, each
/// under its own flag: stdout framed with the stdout byte exactly when it
/// serves stdout, stderr framed with the stderr byte exactly when it serves
/// stderr, whatever the other flags; client messages count only where it
/// serves stdin, by their lead byte; an exit ends it, reporting a non-zero
/// code; a cancellation ends it.
pub proof fn lemma_stream_action_serves_flags(flags: StreamFlags, event: StreamEvent)
    ensures
        event is Stdout ==> spec_stream_action(flags, event) == (if flags.stdout {
            StreamAction::Send(1)
        } else {
            StreamAction::Ignore
        }),
        event is Stderr ==> spec_stream_action(flags, event) == (if flags.stderr {
            StreamAction::Send(2)
        } else {
            StreamAction::Ignore
        }),
        spec_stream_action(flags, event) matches StreamAction::Send(b) ==> (b == 1 && event is Stdout
            && flags.stdout) || (b == 2 && event is Stderr && flags.stderr),
        event matches StreamEvent::Client(data) ==> spec_stream_action(flags, event) == (if !flags.stdin
            || data@.len() == 0 {
            StreamAction::Ignore
        } else if data@[0] == 0 {
            StreamAction::Stdin
        } else if data@[0] == 4 {
            StreamAction::Resize
        } else if data@[0] == 255 {
            StreamAction::Close
        } else {
            StreamAction::Unknown(data@[0])
        }),
        event matches StreamEvent::Exited(code) ==> spec_stream_action(flags, event) == (if code == 0 {
            StreamAction::Close
        } else {
            StreamAction::Fail(code)
        }),
        event is Cancelled ==> spec_stream_action(flags, event) == StreamAction::Close,
{
}

/// The action of an exec or attach session on an event.
pub fn stream_action(flags: StreamFlags, event: &StreamEvent) -> (a: StreamAction)
    ensures
        a == spec_stream_action(flags, *event),
        *event is Stdout ==> a == (if flags.stdout { StreamAction::Send(STDOUT_BYTE) } else { StreamAction::Ignore }),
        *event is Stderr ==> a == (if flags.stderr { StreamAction::Send(STDERR_BYTE) } else { StreamAction::Ignore }),
        a matches StreamAction::Send(b) ==> (b == STDOUT_BYTE && *event is Stdout && flags.stdout) || (b
            == STDERR_BYTE && *event is Stderr && flags.stderr),
        *event matches StreamEvent::Client(data) ==> a == (if !flags.stdin || data@.len() == 0 {
            StreamAction::Ignore
        } else if data@[0] == 0 {
            StreamAction::Stdin
        } else if data@[0] == 4 {
            StreamAction::Resize
        } else if data@[0] == 255 {
            StreamAction::Close
        } else {
            StreamAction::Unknown(data@[0])
        }),
        *event matches StreamEvent::Exited(code) ==> a == (if code == 0 { StreamAction::Close } else { StreamAction::Fail(code) }),
        *event is Cancelled ==> a == StreamAction::Close,
{
    proof {
        lemma_stream_action_serves_flags(flags, *event);
    }
    match event {
        StreamEvent::Client(data) => if !flags.stdin || data.len() == 0 {
            StreamAction::Ignore
        } else if data[0] == STDIN_BYTE {
            StreamAction::Stdin
        } else if data[0] == RESIZE_BYTE {
            StreamAction::Resize
        } else if data[0] == CLOSE_BYTE {
            StreamAction::Close
        } else {
            StreamAction::Unknown(data[0])
        },
        StreamEvent::Stdout(_) => if flags.stdout {
            StreamAction::Send(STDOUT_BYTE)
        } else {
            StreamAction::Ignore
        },
        StreamEvent::Stderr(_) => if flags.stderr {
            StreamAction::Send(STDERR_BYTE)
        } else {
            StreamAction::Ignore
        },
        StreamEvent::Exited(code) => if *code != 0 {
            StreamAction::Fail(*code)
        } else {
            StreamAction::Close
        },
        StreamEvent::Cancelled => StreamAction::Close,
    }
}

/// The frame that a session sends on an event, where it sends one: framed
/// output, or the report of a failed command.
pub open spec fn event_frame(flags: StreamFlags, event: StreamEvent) -> Option<Seq<u8>> {
    match spec_stream_action(flags, event) {
        StreamAction::Send(b) => match event {
            StreamEvent::Stdout(data) => Some(seq![b] + data@),
            StreamEvent::Stderr(data) => Some(seq![b] + data@),
            _ => None,
        },
        StreamAction::Fail(code) => Some(spec_error_frame(code)),
        _ => None,
    }
}

/// The session ends on the event.
pub open spec fn ends_session(flags: StreamFlags, event: StreamEvent) -> bool {
    spec_stream_action(flags, event) is Close || spec_stream_action(flags, event) is Fail
}

/// Some event of `events` ended the session.
pub open spec fn session_ended(flags: StreamFlags, events: Seq<StreamEvent>) -> bool {
    exists|i: int| 0 <= i < events.len() && ends_session(flags, #[trigger] events[i])
}

/// The frames that a session sends to its client on the events in order,
/// up to the event that ends it; nothing after.
pub open spec fn session_frames(flags: StreamFlags, events: Seq<StreamEvent>) -> Seq<Seq<u8>>
    decreases events.len(),
{
    if events.len() == 0 {
        Seq::empty()
    } else {
        let pre = events.drop_last();
        if session_ended(flags, pre) {
            session_frames(flags, pre)
        } else {
            match event_frame(flags, events.last()) {
                Some(f) => session_frames(flags, pre).push(f),
                None => session_frames(flags, pre),
            }
        }
    }
}

/// Before the session ends, it sends exactly the frames of the events, in
/// order.
proof fn lemma_frames_before_end(flags: StreamFlags, events: Seq<StreamEvent>)
    requires
        !session_ended(flags, events),
    ensures
        session_frames(flags, events) == events.filter_map(|e: StreamEvent| event_frame(flags, e)),
    decreases events.len(),
{
    if events.len() > 0 {
        let pre = events.drop_last();
        assert forall|i: int| 0 <= i < pre.len() implies !ends_session(flags, #[trigger] pre[i]) by {
            assert(pre[i] == events[i]);
        }
        lemma_frames_before_end(flags, pre);
    }
}

/// Events after the end of a session send nothing.
proof fn lemma_frames_after_end(flags: StreamFlags, events: Seq<StreamEvent>, later: Seq<StreamEvent>)
    requires
        session_ended(flags, events),
    ensures
        session_frames(flags, events + later) == session_frames(flags, events),
    decreases later.len(),
{
    if later.len() > 0 {
        let all = events + later;
        assert(all.drop_last() =~= events + later.drop_last());
        lemma_frames_after_end(flags, events, later.drop_last());
        let i = choose|i: int| 0 <= i < events.len() && ends_session(flags, #[trigger] events[i]);
        assert(all.drop_last()[i] == events[i]);
    }
}

/// An exec session whose command exits with `code` before any event ends
/// the session sends the frames of the output it serves, in order, then the
/// report of the failure exactly when `code` is not zero, and nothing after.
pub proof fn lemma_exec_session_frames(
    flags: StreamFlags,
    before: Seq<StreamEvent>,
    code: i32,
    later: Seq<StreamEvent>,
)
    requires
        !session_ended(flags, before),
    ensures
        session_frames(flags, before.push(StreamEvent::Exited(code)) + later) == before.filter_map(
            |e: StreamEvent| event_frame(flags, e),
        ) + if code != 0 {
            seq![spec_error_frame(code)]
        } else {
            Seq::<Seq<u8>>::empty()
        },
{
    let events = before.push(StreamEvent::Exited(code));
    assert(events.drop_last() =~= before);
    lemma_frames_before_end(flags, before);
    assert(ends_session(flags, events[events.len() - 1]));
    lemma_frames_after_end(flags, events, later);
}

/// The payload of a client message: what follows its lead byte.
pub fn client_payload(data: &[u8]) -> (p: &[u8])
    requires
        data@.len() > 0,
    ensures
        p@ == data@.drop_first(),
{
    let p = &data[1..data.len()];
    assert(p@ =~= data@.drop_first());
    p
}

/// What a websocket message of a client is.
#[derive(Clone, Copy, Debug, PartialEq, Eq, Structural)]
pub enum ClientMessage {
    /// Binary data of this length.
    Binary(usize),
    /// A close request.
    Close,
    /// Text, a ping or a pong.
    Other,
}

/// Whether the reader of a websocket goes on after a message, and whether it
/// forwards the message: non-empty binary data is forwarded, a close request
/// stops the reader, anything else is skipped.
pub fn client_message_action(msg: ClientMessage) -> (r: (bool, bool))
    ensures
        r.0 == !(msg is Close),
        r.1 == (msg matches ClientMessage::Binary(n) && n > 0),
{
    match msg {
        ClientMessage::Binary(n) => (true, n > 0),
        ClientMessage::Close => (false, false),
        ClientMessage::Other => (true, false),
    }
}

} // verus!
