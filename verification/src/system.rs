//! Randomness and the clock, which the library reads through these calls.

use vstd::prelude::*;

verus! {

/// Calls `rand::random::<u32>()`; nothing is known of the value.
#[verifier::external_body]
pub(crate) fn random_u32() -> u32 {
    rand::random::<u32>()
}

/// Calls `rand::random::<u8>()`; nothing is known of the value.
#[verifier::external_body]
pub(crate) fn random_u8() -> u8 {
    rand::random::<u8>()
}

/// `n` random bytes.
pub fn random_bytes(n: usize) -> (res: Vec<u8>)
    ensures
        res@.len() == n,
{
    let mut v: Vec<u8> = Vec::new();
    let mut i: usize = 0;
    while i < n
        invariant
            i <= n,
            v@.len() == i,
        decreases n - i,
    {
        v.push(random_u8());
        i = i + 1;
    }
    v
}

/// The Unix seconds and nanoseconds that `chrono::DateTime::from_timestamp`
/// takes: a date between the years -262143 and 262142, and nanoseconds
/// below 10^9, or below 2 * 10^9 in the last second of a minute (a leap
/// second).
pub open spec fn chrono_time_ok(secs: int, nanos: int) -> bool {
    &&& -8334601315200 <= secs <= 8210266876799
    &&& (nanos < 1_000_000_000 || (nanos < 2_000_000_000 && secs % 60 == 59))
}

/// A reading of chrono's UTC clock: Unix seconds from 1970 on, within
/// chrono's range, and the nanoseconds within that second.
pub open spec fn clock_reading(now: (i64, u32)) -> bool {
    &&& 0 <= now.0
    &&& chrono_time_ok(now.0 as int, now.1 as int)
    &&& now.1 < 1_000_000_000
}

/// Calls `chrono::Utc::now()`; its Unix seconds and sub-second nanoseconds.
/// The value depends on the clock; what holds of every outcome is that it is
/// a reading as `Utc::now` makes it: the system time since 1970, through
/// `DateTime::from_timestamp`, which it unwraps. `Utc::now` panics where
/// the system clock reads a time before 1970; that depends on the machine,
/// not on an argument, so no precondition leaves it out.
#[verifier::external_body]
pub(crate) fn utc_now() -> (res: (i64, u32))
    ensures
        clock_reading(res),
{
    let t = chrono::Utc::now();
    (t.timestamp(), t.timestamp_subsec_nanos())
}

/// A time plus a number of seconds, as chrono's checked addition of a
/// whole-second duration gives it: the same nanoseconds, `None` where the
/// sum is no time chrono represents.
pub open spec fn clock_plus(now: (i64, u32), offset: int) -> Option<(i64, u32)> {
    if chrono_time_ok(now.0 + offset, now.1 as int) {
        Some(((now.0 + offset) as i64, now.1))
    } else {
        None
    }
}

/// A time plus a number of seconds; `None` where chrono cannot represent
/// the sum.
pub fn time_plus(now: (i64, u32), offset: i64) -> (res: Option<(i64, u32)>)
    ensures
        res == clock_plus(now, offset as int),
{
    let s = match now.0.checked_add(offset) {
        Some(v) => v,
        None => return None,
    };
    if s < -8334601315200 || s > 8210266876799 {
        return None;
    }
    // 8334601315200 is a multiple of 60: the shift keeps the second of the minute.
    let shifted = (s + 8334601315200) as u64;
    assert(shifted % 60 == (s as int) % 60);
    let nanos = now.1;
    if nanos < 1_000_000_000 || (nanos < 2_000_000_000 && shifted % 60 == 59) {
        Some((s, nanos))
    } else {
        None
    }
}

} // verus!
