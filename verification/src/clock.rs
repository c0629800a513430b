//! The timestamp of a row.

use std::time::{Duration, SystemTime, UNIX_EPOCH};

use vstd::prelude::*;

verus! {

#[verifier::external_type_specification]
#[verifier::external_body]
pub struct ExSystemTime(SystemTime);

/// `SystemTime::now`. Nothing is stated of the reading: it is the clock's.
#[verifier::external_body]
fn system_now() -> SystemTime {
    SystemTime::now()
}

/// `SystemTime::duration_since` from `UNIX_EPOCH`: the time elapsed since the
/// Unix epoch, `None` when `t` lies before it. Nothing is stated of the
/// duration: it depends on the clock's reading.
#[verifier::external_body]
fn since_unix_epoch(t: SystemTime) -> Option<Duration> {
    t.duration_since(UNIX_EPOCH).ok()
}

/// `Duration::as_nanos`. Nothing is stated of the count: a `Duration` is
/// opaque here.
#[verifier::external_body]
fn duration_nanos(d: &Duration) -> u128 {
    d.as_nanos()
}

/// A count of nanoseconds split into whole milliseconds and the nanoseconds
/// left over, each cast to its column's width.
pub open spec fn split_spec(total_ns: u128) -> (i64, i32) {
    ((total_ns / 1_000_000) as i64, (total_ns % 1_000_000) as i32)
}

/// `total_ns` nanoseconds as milliseconds and leftover nanoseconds (see `split_spec`).
pub fn split_nanos(total_ns: u128) -> (r: (i64, i32))
    ensures
        r == split_spec(total_ns),
        0 <= r.1 < 1_000_000,
        total_ns / 1_000_000 <= i64::MAX ==> r.0 * 1_000_000 + r.1 == total_ns,
{
    let ms = (total_ns / 1_000_000) as i64;
    let ns = (total_ns % 1_000_000) as i32;
    (ms, ns)
}

/// The timestamp of a clock reading: the split of the nanoseconds elapsed
/// since the Unix epoch, or `(0, 0)` for a reading before the epoch (`None`).
pub open spec fn since_epoch_spec(elapsed_ns: Option<u128>) -> (i64, i32) {
    match elapsed_ns {
        Some(n) => split_spec(n),
        None => (0, 0),
    }
}

/// The timestamp of a clock reading (see `since_epoch_spec`).
pub fn ms_ns_since_epoch(elapsed_ns: Option<u128>) -> (r: (i64, i32))
    ensures
        r == since_epoch_spec(elapsed_ns),
{
    let total_ns: u128 = match elapsed_ns {
        Some(n) => n,
        None => 0,
    };
    split_nanos(total_ns)
}

/// The current time as milliseconds and leftover nanoseconds since the Unix
/// epoch, as `ms_ns_since_epoch` makes it of the clock's reading; a clock set
/// before the epoch reads as zero.
pub fn now_ms_ns() -> (r: (i64, i32))
    ensures
        exists|elapsed_ns: Option<u128>| r == since_epoch_spec(elapsed_ns),
        0 <= r.1 < 1_000_000,
{
    let now = system_now();
    let elapsed_ns: Option<u128> = match since_unix_epoch(now) {
        Some(d) => Some(duration_nanos(&d)),
        None => None,
    };
    ms_ns_since_epoch(elapsed_ns)
}

} // verus!
