//! The time of day, and other things that only the machine knows.

use vstd::prelude::*;

verus! {

/// `chrono::Utc::now` reads the system clock; `timestamp` and
/// `timestamp_subsec_nanos` give the whole seconds since the epoch and the
/// nanoseconds beyond them. Nothing is known of the result beforehand. The
/// call does not return where the clock stands before the epoch.
#[verifier::external_body]
pub(crate) fn utc_now() -> (r: (i64, u32)) {
    let now = chrono::Utc::now();
    (now.timestamp(), now.timestamp_subsec_nanos())
}

/// `uuid::Uuid::new_v4` draws a random identifier, which is printed in its
/// hyphenated form. Nothing is known of the result beforehand.
#[verifier::external_body]
pub(crate) fn random_uuid() -> (r: String) {
    uuid::Uuid::new_v4().to_string()
}

/// `hostname::get` asks the system for the name of the machine; a name that
/// cannot be had is empty, and one that is no text is made one. Nothing is
/// known of the result beforehand.
#[verifier::external_body]
pub(crate) fn host_name() -> (r: String) {
    hostname::get().unwrap_or_default().to_string_lossy().to_string()
}

/// Microseconds since the epoch, for seconds and nanoseconds, kept within
/// `i64`.
pub open spec fn micros_of(instant: (i64, u32)) -> int {
    let m = instant.0 * 1_000_000 + instant.1 / 1_000;
    if m > i64::MAX {
        i64::MAX as int
    } else if m < i64::MIN {
        i64::MIN as int
    } else {
        m
    }
}

/// Microseconds since the epoch, for seconds and nanoseconds.
pub fn to_micros(instant: (i64, u32)) -> (r: i64)
    ensures
        r == micros_of(instant),
{
    let m: i128 = (instant.0 as i128) * 1_000_000 + (instant.1 as i128) / 1_000;
    if m > i64::MAX as i128 {
        i64::MAX
    } else if m < i64::MIN as i128 {
        i64::MIN
    } else {
        m as i64
    }
}

} // verus!
