//! Arithmetic on the caller's millisecond clock. The engine never reads the
//! time itself; it only compares timestamps it was handed, and does so
//! without ever overflowing.

use vstd::prelude::*;

verus! {

/// Milliseconds from `since` to `now`: zero where the clock has not moved
/// forward, and capped at `i64::MAX`.
pub open spec fn spec_elapsed(now: i64, since: i64) -> i64 {
    if now <= since {
        0
    } else if now - since > i64::MAX {
        i64::MAX
    } else {
        (now - since) as i64
    }
}

/// Milliseconds from `since` to `now`.
pub fn elapsed(now: i64, since: i64) -> (ms: i64)
    ensures
        ms == spec_elapsed(now, since),
        ms >= 0,
{
    if now <= since {
        0
    } else if since < 0 && now > i64::MAX + since {
        i64::MAX
    } else {
        now - since
    }
}

/// Milliseconds left until `interval` has elapsed since `since`: zero once
/// it has.
pub open spec fn spec_remaining(now: i64, since: i64, interval: i64) -> i64 {
    if spec_elapsed(now, since) >= interval {
        0
    } else {
        (interval - spec_elapsed(now, since)) as i64
    }
}

/// Milliseconds left until `interval` has elapsed since `since`.
pub fn remaining(now: i64, since: i64, interval: i64) -> (ms: i64)
    ensures
        ms == spec_remaining(now, since, interval),
        ms >= 0,
        ms == 0 <==> spec_elapsed(now, since) >= interval,
{
    let gone = elapsed(now, since);
    if gone >= interval {
        0
    } else {
        interval - gone
    }
}

/// Whether `interval` has elapsed since `since`.
pub open spec fn spec_due(now: i64, since: i64, interval: i64) -> bool {
    spec_elapsed(now, since) >= interval
}

/// Whether `interval` has elapsed since `since`.
pub fn due(now: i64, since: i64, interval: i64) -> (is_due: bool)
    ensures
        is_due == spec_due(now, since, interval),
{
    elapsed(now, since) >= interval
}

/// The time that lies `wait` milliseconds after `now`, or the end of the
/// clock's range where that is beyond it.
pub open spec fn spec_after(now: i64, wait: i64) -> i64 {
    if now + wait > i64::MAX {
        i64::MAX
    } else if now + wait < i64::MIN {
        i64::MIN
    } else {
        (now + wait) as i64
    }
}

/// The time that lies `wait` milliseconds after `now`.
pub fn after(now: i64, wait: i64) -> (then: i64)
    ensures
        then == spec_after(now, wait),
{
    if wait >= 0 {
        if now > i64::MAX - wait {
            i64::MAX
        } else {
            now + wait
        }
    } else if now < i64::MIN - wait {
        i64::MIN
    } else {
        now + wait
    }
}

/// The smaller of two waiting times.
pub fn sooner(a: i64, b: i64) -> (m: i64)
    ensures
        m == if a <= b {
            a
        } else {
            b
        },
{
    if a <= b {
        a
    } else {
        b
    }
}

} // verus!
