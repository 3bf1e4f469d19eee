//! Normalization of raw coordinate and timestamp units using a block's
//! scale parameters. Pure functions of the parameters; no decoder state.

use vstd::prelude::*;

verus! {

/// A normalized coordinate in nanodegrees:
/// `offset + granularity * raw`, with two's-complement wrapping.
/// Dividing by `10^9` yields degrees.
pub open spec fn spec_normalize_coord(raw: i64, granularity: i64, offset: i64) -> i64 {
    raw.wrapping_mul(granularity).wrapping_add(offset)
}

/// Truncating (round toward zero) division of `x` by 1000.
pub open spec fn spec_div_1000(x: i64) -> i64 {
    if x >= 0 {
        (x as int / 1000) as i64
    } else {
        (-((-(x as int)) / 1000)) as i64
    }
}

/// A normalized timestamp in epoch seconds:
/// `raw * date_granularity` milliseconds, divided by 1000.
pub open spec fn spec_normalize_timestamp(raw: i64, date_granularity: i64) -> i64 {
    spec_div_1000(raw.wrapping_mul(date_granularity))
}

/// Converts a raw coordinate unit into nanodegrees using the block's
/// granularity (nanodegrees per unit) and offset (nanodegrees).
pub fn normalize_coord(raw: i64, granularity: i64, offset: i64) -> (r: i64)
    ensures
        r == spec_normalize_coord(raw, granularity, offset),
{
    raw.wrapping_mul(granularity).wrapping_add(offset)
}

fn div_1000(x: i64) -> (r: i64)
    ensures
        r == spec_div_1000(x),
{
    if x >= 0 {
        ((x as u64) / 1000u64) as i64
    } else if x == i64::MIN {
        assert(9223372036854775808int / 1000 == 9223372036854775int) by (nonlinear_arith);
        -9223372036854775i64
    } else {
        let m: u64 = (-x) as u64;
        -((m / 1000u64) as i64)
    }
}

/// Converts a raw timestamp unit into epoch seconds using the block's
/// date granularity (milliseconds per unit).
pub fn normalize_timestamp(raw: i64, date_granularity: i64) -> (r: i64)
    ensures
        r == spec_normalize_timestamp(raw, date_granularity),
{
    div_1000(raw.wrapping_mul(date_granularity))
}

} // verus!
