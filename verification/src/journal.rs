//! Logging to the systemd journal.

use vstd::prelude::*;
use vstd::utf8::{decode_utf8, valid_utf8};
use crate::container_io::Pipe;
use crate::text::utf8_str;

verus! {

/// Why data cannot go to the journal.
#[derive(Clone, Copy, Debug, PartialEq, Eq, Structural)]
pub enum JournalError {
    /// The data is not valid UTF-8.
    InvalidUtf8,
}

/// A writer to the systemd journal, at the notice priority.
pub struct Journal;

impl Journal {
    /// The text that the journal gets for `buf`: the bytes as text, where they
    /// are valid UTF-8. The journal takes the whole text, so a write of `buf`
    /// reports all its bytes written.
    pub fn message(buf: &[u8]) -> (r: Result<&str, JournalError>)
        ensures
            r is Ok <==> valid_utf8(buf@),
            r matches Ok(s) ==> s@ == decode_utf8(buf@),
            r matches Err(e) ==> e == JournalError::InvalidUtf8,
    {
        match utf8_str(buf) {
            Some(s) => Ok(s),
            None => Err(JournalError::InvalidUtf8),
        }
    }
}

/// The container log driver that writes to the systemd journal.
pub struct JournaldLogger;

impl JournaldLogger {
    /// A new journald logger; the size limit does not apply to the journal.
    pub fn new(max_log_size: Option<usize>) -> (r: Result<Self, JournalError>)
        ensures
            r is Ok,
    {
        Ok(JournaldLogger)
    }

    /// The text that the journal gets for container output `bytes` from
    /// `pipe`: the output as it is, where it is valid UTF-8.
    pub fn entry<'a>(&self, pipe: Pipe, bytes: &'a [u8]) -> (r: Result<&'a str, JournalError>)
        ensures
            r is Ok <==> valid_utf8(bytes@),
            r matches Ok(s) ==> s@ == decode_utf8(bytes@),
    {
        Journal::message(bytes)
    }
}

} // verus!
