//! The wall clock, read as Unix time in whole seconds.

use vstd::prelude::*;
use std::time::SystemTime;

verus! {

#[verifier::external_type_specification]
#[verifier::external_body]
pub struct ExSystemTime(SystemTime);

/// `SystemTime::now`: the current time of the system clock. It depends on
/// the clock, so nothing is stated of it.
#[verifier::external_body]
pub fn system_now() -> (r: SystemTime) {
    SystemTime::now()
}

/// `SystemTime::duration_since(UNIX_EPOCH)`, as whole seconds and
/// nanoseconds: `Ok` for a time at or after the epoch, `Err` with the
/// distance before it for an earlier one. The nanoseconds of a `Duration`
/// are below one second.
#[verifier::external_body]
pub fn since_epoch(t: SystemTime) -> (r: Result<(u64, u32), (u64, u32)>)
    ensures
        match r {
            Ok((_, n)) => n < 1_000_000_000,
            Err((_, n)) => n < 1_000_000_000,
        },
{
    match t.duration_since(std::time::UNIX_EPOCH) {
        Ok(d) => Ok((d.as_secs(), d.subsec_nanos())),
        Err(e) => Err((e.duration().as_secs(), e.duration().subsec_nanos())),
    }
}

/// The Unix time in seconds of a time that lies the given distance after
/// (`Ok`) or before (`Err`) the epoch, rounded down to whole seconds.
pub open spec fn unix_seconds(since: Result<(u64, u32), (u64, u32)>) -> int {
    match since {
        Ok((s, _)) => s as int,
        Err((s, n)) => if n == 0 {
            -(s as int)
        } else {
            -(s as int) - 1
        },
    }
}

/// `x` held to the range of `i64`.
pub open spec fn clamp_i64(x: int) -> i64 {
    if x > i64::MAX {
        i64::MAX
    } else if x < i64::MIN {
        i64::MIN
    } else {
        x as i64
    }
}

/// The timestamp of a time given by its distance from the epoch, rounded
/// down, held to the range of `i64`.
pub fn timestamp_of(since: Result<(u64, u32), (u64, u32)>) -> (r: i64)
    ensures
        r == clamp_i64(unix_seconds(since)),
{
    match since {
        Ok((s, _)) => {
            if s > i64::MAX as u64 {
                i64::MAX
            } else {
                s as i64
            }
        },
        Err((s, n)) => {
            if s > i64::MAX as u64 {
                i64::MIN
            } else if n == 0 {
                -(s as i64)
            } else if s == i64::MAX as u64 {
                i64::MIN
            } else {
                -(s as i64) - 1
            }
        },
    }
}

/// The current Unix time in seconds (see `timestamp_of`); the clock decides it.
pub fn now_timestamp() -> (r: i64) {
    timestamp_of(since_epoch(system_now()))
}

} // verus!
