//! Reading the system clock for response identifiers and timestamps.
use vstd::prelude::*;
use crate::numbers::{digits_of, digits_spec};
use crate::text::extend_chars;
use crate::text::{chars_of, string_from_chars};

verus! {

/// `std::time::SystemTime`, held only to be measured against the epoch.
#[verifier::external_type_specification]
#[verifier::external_body]
pub struct ExSystemTime(std::time::SystemTime);

/// `SystemTime::now`: the system clock's current time. Nothing is claimed of
/// it; two calls may give any two times.
#[verifier::external_body]
fn system_now() -> std::time::SystemTime {
    std::time::SystemTime::now()
}

/// `SystemTime::duration_since(UNIX_EPOCH)`: the time elapsed since the Unix
/// epoch, or `None` when `t` lies before it. Which of the two comes back,
/// and the duration, depend on the clock, so nothing is claimed of them.
#[verifier::external_body]
fn since_unix_epoch(t: std::time::SystemTime) -> Option<std::time::Duration> {
    t.duration_since(std::time::UNIX_EPOCH).ok()
}

/// `Duration::as_secs`: the whole seconds of `d`.
#[verifier::external_body]
fn duration_secs(d: &std::time::Duration) -> u64 {
    d.as_secs()
}

/// `Duration::subsec_nanos`: the fractional part of `d` in nanoseconds,
/// which its documentation says is always below one billion.
#[verifier::external_body]
fn duration_subsec_nanos(d: &std::time::Duration) -> (n: u32)
    ensures
        n < 1_000_000_000,
{
    d.subsec_nanos()
}

/// The seconds and nanoseconds of a clock reading taken against the Unix
/// epoch: the reading itself, or `(0, 0)` where there is none because the
/// clock read before the epoch.
pub fn epoch_stamp(reading: Option<(u64, u32)>) -> (r: (u64, u32))
    ensures
        r == (match reading {
            Some(p) => p,
            None => (0u64, 0u32),
        }),
{
    match reading {
        Some(p) => p,
        None => (0, 0),
    }
}

/// The time since the Unix epoch as whole seconds and the nanoseconds
/// beyond them, read once from the system clock; a clock that reads before
/// the epoch gives `(0, 0)`.
pub(crate) fn now_since_epoch() -> (r: (u64, u32))
    ensures
        r.1 < 1_000_000_000,
{
    let reading = match since_unix_epoch(system_now()) {
        Some(d) => Some((duration_secs(&d), duration_subsec_nanos(&d))),
        None => None,
    };
    epoch_stamp(reading)
}

/// The current Unix time in seconds.
pub fn unix_timestamp() -> u64 {
    now_since_epoch().0
}

/// `n` in lower-case hexadecimal, as `{:x}` writes it.
pub open spec fn hex(n: nat) -> Seq<char> {
    digits_spec(n, 16)
}

/// The identifier written from a time: its seconds, then its nanoseconds,
/// each in lower-case hexadecimal.
pub open spec fn stamp_hex(secs: nat, nanos: nat) -> Seq<char> {
    hex(secs) + hex(nanos)
}

/// Formats `secs` and `nanos` as `stamp_hex` writes them.
pub fn format_stamp(secs: u64, nanos: u32) -> (s: String)
    ensures
        s@ == stamp_hex(secs as nat, nanos as nat),
{
    let mut v = digits_of(secs, 16);
    let n = digits_of(nanos as u64, 16);
    extend_chars(&mut v, &n);
    string_from_chars(&v)
}

/// A short identifier made of the current time: its seconds and its
/// nanoseconds in hexadecimal.
pub fn uuid_simple() -> (s: String)
    ensures
        exists|secs: u64, nanos: u32| nanos < 1_000_000_000 && s@ == stamp_hex(secs as nat, nanos as nat),
{
    let (secs, nanos) = now_since_epoch();
    format_stamp(secs, nanos)
}

/// `chatcmpl-` followed by the time identifier.
pub open spec fn completion_id(secs: nat, nanos: nat) -> Seq<char> {
    "chatcmpl-"@ + stamp_hex(secs, nanos)
}

/// The identifier of a chat completion made at the given time.
pub fn completion_id_at(secs: u64, nanos: u32) -> (s: String)
    ensures
        s@ == completion_id(secs as nat, nanos as nat),
{
    let mut v = chars_of("chatcmpl-");
    let t = format_stamp(secs, nanos);
    let tv = chars_of(t.as_str());
    extend_chars(&mut v, &tv);
    string_from_chars(&v)
}

} // verus!
