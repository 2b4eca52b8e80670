//! The console socket of a container with a terminal: the runtime connects
//! to it and hands over the terminal's file descriptor.

use vstd::prelude::*;

verus! {

/// The prefix of the name of a console socket.
pub const SOCKET_PREFIX: &'static str = "conmon-term-";

/// The suffix of the name of a console socket.
pub const SOCKET_SUFFIX: &'static str = ".sock";

/// The number of random characters in the name of a console socket.
pub const SOCKET_RAND_BYTES: usize = 7;

/// How long to wait for the runtime to connect, in seconds.
pub const CONNECT_TIMEOUT_SECS: u64 = 60;

/// Why the console handshake failed.
#[derive(Clone, Copy, Debug, PartialEq, Eq, Structural)]
pub enum ConsoleError {
    /// The runtime connected but sent no file descriptor.
    NoFileDescriptor,
    /// The handshake ended without a terminal: the listener is gone.
    NotConnected,
    /// The runtime did not hand over a terminal within the wait.
    TimedOut,
    /// The operation is not implemented.
    Unimplemented,
}

/// A console socket and the state of its handshake.
pub struct Console {
    path: String,
    socket_present: bool,
    connected: bool,
    failed: bool,
}

impl Console {
    /// The path of the socket.
    pub closed spec fn spec_path(&self) -> Seq<char> {
        self.path@
    }

    /// Whether the runtime has handed over a terminal.
    pub closed spec fn is_connected(&self) -> bool {
        self.connected
    }

    /// Whether the socket file is still there: it is removed once the
    /// runtime's one message is handled.
    pub closed spec fn socket_present(&self) -> bool {
        self.socket_present
    }

    /// Whether the handshake ended without a terminal.
    pub closed spec fn has_failed(&self) -> bool {
        self.failed
    }

    /// A console socket at `path` that waits for the runtime.
    pub fn new(path: String) -> (c: Self)
        ensures
            c.spec_path() == path@,
            c.socket_present(),
            !c.is_connected(),
            !c.has_failed(),
    {
        Console { path, socket_present: true, connected: false, failed: false }
    }

    /// The path of the socket.
    pub fn path(&self) -> (p: &String)
        ensures
            p@ == self.spec_path(),
    {
        &self.path
    }

    /// Whether the socket file is still there.
    pub fn has_socket(&self) -> (b: bool)
        ensures
            b == self.socket_present(),
    {
        self.socket_present
    }

    /// The runtime sent its one message, with `fds_read` file descriptors:
    /// the socket file is removed, and the handshake succeeds where the
    /// message carried a descriptor and fails otherwise.
    pub fn receive_fd(&mut self, fds_read: usize) -> (r: Result<(), ConsoleError>)
        ensures
            final(self).spec_path() == old(self).spec_path(),
            !final(self).socket_present(),
            fds_read == 0 ==> r == Err::<(), ConsoleError>(ConsoleError::NoFileDescriptor)
                && final(self).is_connected() == old(self).is_connected() && final(self).has_failed(),
            fds_read > 0 ==> r == Ok::<(), ConsoleError>(()) && final(self).is_connected()
                && final(self).has_failed() == old(self).has_failed(),
    {
        self.socket_present = false;
        if fds_read == 0 {
            self.failed = true;
            Err(ConsoleError::NoFileDescriptor)
        } else {
            self.connected = true;
            Ok(())
        }
    }

    /// Waiting for the socket client after `waited_secs` seconds: done once
    /// the runtime has handed over a terminal; an error where the handshake
    /// ended without one, or where the wait reached `CONNECT_TIMEOUT_SECS`;
    /// `None` while the wait goes on.
    pub fn wait_connected(&self, waited_secs: u64) -> (r: Option<Result<(), ConsoleError>>)
        ensures
            r == (if self.is_connected() {
                Some(Ok::<(), ConsoleError>(()))
            } else if self.has_failed() {
                Some(Err::<(), ConsoleError>(ConsoleError::NotConnected))
            } else if waited_secs >= CONNECT_TIMEOUT_SECS {
                Some(Err::<(), ConsoleError>(ConsoleError::TimedOut))
            } else {
                None::<Result<(), ConsoleError>>
            }),
    {
        if self.connected {
            Some(Ok(()))
        } else if self.failed {
            Some(Err(ConsoleError::NotConnected))
        } else if waited_secs >= CONNECT_TIMEOUT_SECS {
            Some(Err(ConsoleError::TimedOut))
        } else {
            None
        }
    }

    /// Create the window resize control FIFO. It is not implemented, and
    /// says so.
    pub fn setup_fifo() -> (r: Result<(), ConsoleError>)
        ensures
            r == Err::<(), ConsoleError>(ConsoleError::Unimplemented),
    {
        Err(ConsoleError::Unimplemented)
    }
}

} // verus!
