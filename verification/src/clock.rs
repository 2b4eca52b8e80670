//! The monotonic clock and the wall clock, as the library reads them.

use vstd::prelude::*;
use vstd::string::StringSliceAdditionalSpecFns;
use vstd::utf8::is_ascii_chars;
use std::time::{Duration, Instant, SystemTime};
use time::OffsetDateTime;
use time::format_description::well_known::Rfc3339;

verus! {

#[verifier::external_type_specification]
#[verifier::external_body]
pub struct ExInstant(Instant);

#[verifier::external_type_specification]
#[verifier::external_body]
pub struct ExOffsetDateTime(OffsetDateTime);

#[verifier::external_type_specification]
#[verifier::external_body]
pub struct ExSystemTime(SystemTime);

/// std `SystemTime::now`: the current wall-clock time.
#[verifier::external_body]
fn system_now() -> (t: SystemTime) {
    SystemTime::now()
}

/// std `SystemTime::duration_since` the Unix epoch; `None` for a time
/// before the epoch.
#[verifier::external_body]
fn since_epoch(t: SystemTime) -> (d: Option<Duration>) {
    t.duration_since(SystemTime::UNIX_EPOCH).ok()
}

/// std `Duration::as_secs`: the whole seconds of `d`.
#[verifier::external_body]
fn whole_secs(d: Duration) -> (s: u64) {
    d.as_secs()
}

/// std `Duration::as_millis`: the whole milliseconds of `d`.
#[verifier::external_body]
fn whole_millis(d: Duration) -> (ms: u128) {
    d.as_millis()
}

/// The current Unix time in seconds; 0 where the clock is before the epoch.
pub(crate) fn unix_time_secs() -> (s: u64) {
    match since_epoch(system_now()) {
        Some(d) => whole_secs(d),
        None => 0,
    }
}

/// std `Instant::now`: a point on the monotonic clock.
#[verifier::external_body]
pub(crate) fn clock_start() -> (i: Instant) {
    Instant::now()
}

/// std `Instant::elapsed`: the time since `origin`.
#[verifier::external_body]
fn elapsed_since(origin: &Instant) -> (d: Duration) {
    origin.elapsed()
}

/// The whole milliseconds since `origin`, at most `u64::MAX`.
pub(crate) fn clock_elapsed_ms(origin: &Instant) -> (ms: u64) {
    let ms = whole_millis(elapsed_since(origin));
    if ms > u64::MAX as u128 {
        u64::MAX
    } else {
        ms as u64
    }
}

/// time `OffsetDateTime::now_local`: the current local time, where the
/// local offset can be determined.
#[verifier::external_body]
fn local_now() -> (t: Option<OffsetDateTime>) {
    OffsetDateTime::now_local().ok()
}

/// time `OffsetDateTime::now_utc`: the current time in UTC.
#[verifier::external_body]
fn utc_now() -> (t: OffsetDateTime) {
    OffsetDateTime::now_utc()
}

/// `c` is an ASCII digit.
pub open spec fn ascii_digit(c: char) -> bool {
    '0' <= c && c <= '9'
}

/// `s` has the shape of an RFC 3339 timestamp, all in ASCII:
/// `YYYY-MM-DDTHH:MM:SS`, then an optional fraction and the offset, so at
/// least 20 characters.
pub open spec fn rfc3339_shape(s: Seq<char>) -> bool {
    &&& s.len() >= 20
    &&& is_ascii_chars(s)
    &&& forall|i: int| 0 <= i < 19 && i != 4 && i != 7 && i != 10 && i != 13 && i != 16
        ==> ascii_digit(#[trigger] s[i])
    &&& s[4] == '-' && s[7] == '-' && s[10] == 'T' && s[13] == ':' && s[16] == ':'
}

/// The bytes `b` are an RFC 3339 timestamp in ASCII, of the shape
/// `YYYY-MM-DDTHH:MM:SS`, then an optional fraction and the offset.
pub open spec fn rfc3339_bytes(b: Seq<u8>) -> bool {
    &&& b.len() >= 20
    &&& forall|i: int| 0 <= i < b.len() ==> #[trigger] b[i] < 128
    &&& forall|i: int| 0 <= i < 19 && i != 4 && i != 7 && i != 10 && i != 13 && i != 16
        ==> 48 <= #[trigger] b[i] <= 57
    &&& b[4] == 45 && b[7] == 45 && b[10] == 84 && b[13] == 58 && b[16] == 58
}

/// The UTF-8 bytes of a timestamp of RFC 3339 shape are that timestamp in
/// ASCII bytes.
pub proof fn lemma_rfc3339_bytes(s: &str)
    requires
        rfc3339_shape(s@),
    ensures
        rfc3339_bytes(s.spec_bytes()),
{
    broadcast use vstd::string::is_ascii_spec_bytes;
    assert(vstd::string::is_ascii(s));
    let b = s.spec_bytes();
    assert(b =~= Seq::new(s@.len(), |i| s@.index(i) as u8));
    assert forall|i: int| 0 <= i < b.len() implies #[trigger] b[i] < 128 by {
        assert(s@[i] <= '\u{7f}');
    }
    assert forall|i: int| 0 <= i < 19 && i != 4 && i != 7 && i != 10 && i != 13 && i != 16
        implies 48 <= #[trigger] b[i] <= 57 by {
        assert(ascii_digit(s@[i]));
    }
}

/// time `OffsetDateTime::format` with `Rfc3339`: the time as an RFC 3339
/// timestamp, where it has one (the year must have four digits, the offset
/// no seconds). The source writes the four-digit year, `-`, the month, `-`,
/// the day, `T`, the hour, `:`, the minute, `:`, the second, each of two
/// digits, then a fraction where there is one, then `Z` or the offset, all
/// in ASCII. Whether the time can be formatted is not stated.
#[verifier::external_body]
fn format_rfc3339(t: OffsetDateTime) -> (s: Option<String>)
    ensures
        s matches Some(text) ==> rfc3339_shape(text@),
{
    t.format(&Rfc3339).ok()
}

/// The current time as an RFC 3339 timestamp: local time where the local
/// offset is known, UTC otherwise; `None` where it cannot be formatted.
pub(crate) fn rfc3339_now() -> (s: Option<String>)
    ensures
        s matches Some(text) ==> rfc3339_shape(text@),
{
    let t = match local_now() {
        Some(t) => t,
        None => utc_now(),
    };
    format_rfc3339(t)
}

} // verus!
