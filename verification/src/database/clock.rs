use vstd::prelude::*;

use core::time::Duration;
use std::time::{SystemTime, SystemTimeError};

verus! {

#[verifier::external_type_specification]
#[verifier::external_body]
pub struct ExSystemTime(std::time::SystemTime);

#[verifier::external_type_specification]
#[verifier::external_body]
pub struct ExSystemTimeError(std::time::SystemTimeError);

/// Calls `SystemTime::now`. The result is the system clock's reading; nothing is stated of it.
#[verifier::external_body]
fn clock_now() -> (t: SystemTime) {
    SystemTime::now()
}

/// Calls `SystemTime::duration_since` with `UNIX_EPOCH`. Whether it succeeds, and the
/// duration, depend on the clock's reading; nothing is stated of them.
#[verifier::external_body]
fn since_unix_epoch(t: &SystemTime) -> (res: Result<Duration, SystemTimeError>) {
    t.duration_since(std::time::UNIX_EPOCH)
}

/// Calls `Duration::as_secs`: the whole seconds of a duration, which is opaque here; nothing is
/// stated of them.
#[verifier::external_body]
fn whole_seconds(d: &Duration) -> (secs: u64) {
    d.as_secs()
}

/// The `i64` of a count of seconds, wrapped to the `i64` range as `as` does; 0 when there is no
/// count (a clock before 1970).
pub fn timestamp_from_secs(secs: Option<u64>) -> (res: i64)
    ensures
        match secs {
            Some(s) => res as int == if s <= i64::MAX {
                s as int
            } else {
                s - 0x1_0000_0000_0000_0000
            },
            None => res == 0,
        },
{
    match secs {
        Some(s) => {
            if s <= 0x7fff_ffff_ffff_ffffu64 {
                s as i64
            } else {
                let below: u64 = s - 0x8000_0000_0000_0000u64;
                let r: i64 = below as i64;
                r - 0x7fff_ffff_ffff_ffffi64 - 1
            }
        },
        None => 0,
    }
}

/// The current Unix time in seconds (0 when the clock reads before 1970).
pub fn now() -> (res: i64) {
    let t: SystemTime = clock_now();
    match since_unix_epoch(&t) {
        Ok(d) => timestamp_from_secs(Some(whole_seconds(&d))),
        Err(_) => timestamp_from_secs(None),
    }
}

} // verus!
