//! Fixed-point units shared by the whole simulation.
//!
//! Lengths are counted in ten-thousandths of an arena unit, so that the
//! player's speed of 1.2 units per full axis deflection is a whole number for
//! every axis reading given in thousandths. Time is counted in microseconds.

use vstd::prelude::*;

verus! {

/// Sub-units in one arena unit.
pub const UNIT: i64 = 10_000;

/// Microseconds in one second.
pub const SECOND: u64 = 1_000_000;

/// Axis reading that stands for a full deflection.
pub const AXIS_FULL: i32 = 1_000;

/// The value nearest to `v` that an `i64` can hold.
pub open spec fn clamp(v: int) -> int {
    if v < i64::MIN {
        i64::MIN as int
    } else if v > i64::MAX {
        i64::MAX as int
    } else {
        v
    }
}

/// The value nearest to `v` that a `u64` timer can hold, for `v >= 0`.
pub open spec fn clamp_time(v: int) -> int {
    if v > u64::MAX {
        u64::MAX as int
    } else {
        v
    }
}

/// `a + b`, pinned to the range of `i64` instead of overflowing.
pub fn offset(a: i64, b: i64) -> (r: i64)
    ensures
        r == clamp(a + b),
{
    if b >= 0 {
        if a > i64::MAX - b {
            i64::MAX
        } else {
            a + b
        }
    } else {
        if a < i64::MIN - b {
            i64::MIN
        } else {
            a + b
        }
    }
}

/// `a + b` on timers, pinned to `u64::MAX` instead of overflowing.
pub fn accumulate(a: u64, b: u64) -> (r: u64)
    ensures
        r == clamp_time(a + b),
{
    if a > u64::MAX - b {
        u64::MAX
    } else {
        a + b
    }
}

} // verus!
