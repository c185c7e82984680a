//! Points in time and spans of time, both counted in nanoseconds.
//!
//! A point in time is the span since some fixed moment in the past, as a
//! monotonic clock reports it.

use vstd::prelude::*;

verus! {

pub const MICROSECOND: u128 = 1_000;

pub const MILLISECOND: u128 = 1_000_000;

pub const SECOND: u128 = 1_000_000_000;

/// The span from `since` to `now`, and nothing where `now` is the earlier.
pub open spec fn span(now: u128, since: u128) -> u128 {
    if now >= since {
        (now - since) as u128
    } else {
        0
    }
}

/// The span from `since` to `now`.
pub fn elapsed(now: u128, since: u128) -> (passed: u128)
    ensures
        passed == span(now, since),
{
    if now >= since {
        now - since
    } else {
        0
    }
}

/// `now` plus `length`, held at the end of time.
pub open spec fn later(now: u128, length: u128) -> u128 {
    if now + length > u128::MAX {
        u128::MAX
    } else {
        (now + length) as u128
    }
}

/// The point `length` after `now`.
pub fn after(now: u128, length: u128) -> (moment: u128)
    ensures
        moment == later(now, length),
{
    if length > u128::MAX - now {
        u128::MAX
    } else {
        now + length
    }
}

/// A span added to the moment it starts at gives the moment it ends at, and
/// the two ways of measuring agree as long as time does not end.
pub proof fn spans_lead_from_moment_to_moment(start: u128, length: u128)
    requires
        start + length <= u128::MAX,
    ensures
        later(start, length) == start + length,
        span((start + length) as u128, start) == length,
        span(start, (start + length) as u128) == 0,
        SECOND == 1000 * MILLISECOND,
        MILLISECOND == 1000 * MICROSECOND,
        MICROSECOND == 1000,
{
}

} // verus!
