//! Delta coding: each value of an array is stored as the difference from its
//! predecessor. Decoding folds the differences back into absolute values with
//! two's-complement wrapping arithmetic, so every delta array decodes.

use vstd::prelude::*;

verus! {

/// Absolute value at position `i` of the delta array `deltas`:
/// the wrapping sum of the first `i + 1` deltas.
pub open spec fn delta_value(deltas: Seq<i64>, i: int) -> i64
    recommends
        0 <= i < deltas.len(),
    decreases i,
{
    if i <= 0 {
        deltas[0]
    } else {
        delta_value(deltas, i - 1).wrapping_add(deltas[i])
    }
}

/// Absolute value at position `i` of a 32-bit delta array.
pub open spec fn delta_value_i32(deltas: Seq<i32>, i: int) -> i32
    recommends
        0 <= i < deltas.len(),
    decreases i,
{
    if i <= 0 {
        deltas[0]
    } else {
        delta_value_i32(deltas, i - 1).wrapping_add(deltas[i])
    }
}

/// The exact (unwrapped) sum of the first `count` deltas of a 32-bit delta
/// array. Used where the accumulator is range-checked rather than wrapped.
pub open spec fn delta_sum(deltas: Seq<i32>, count: int) -> int
    recommends
        count <= deltas.len(),
    decreases count,
{
    if count <= 0 {
        0
    } else {
        delta_sum(deltas, count - 1) + deltas[count - 1]
    }
}

/// The whole sequence of absolute values decoded from `deltas`.
pub open spec fn delta_decoded(deltas: Seq<i64>) -> Seq<i64> {
    Seq::new(deltas.len(), |i: int| delta_value(deltas, i))
}

/// The delta encoding of `values`: the first value itself, then each value as
/// the wrapping difference from its predecessor.
pub open spec fn delta_encoded(values: Seq<i64>) -> Seq<i64> {
    Seq::new(
        values.len(),
        |i: int|
            if i == 0 {
                values[0]
            } else {
                values[i].wrapping_sub(values[i - 1])
            },
    )
}

/// Decodes a delta array into absolute values. Each logical array starts its
/// own accumulator at zero; state never leaks between arrays.
pub fn delta_decode(deltas: &Vec<i64>) -> (r: Vec<i64>)
    ensures
        r@ == delta_decoded(deltas@),
{
    let mut out: Vec<i64> = Vec::new();
    let mut acc: i64 = 0;
    let mut i: usize = 0;
    while i < deltas.len()
        invariant
            i <= deltas.len(),
            out@ == delta_decoded(deltas@).take(i as int),
            i > 0 ==> acc == delta_value(deltas@, i as int - 1),
        decreases deltas.len() - i,
    {
        if i == 0 {
            acc = deltas[0];
        } else {
            acc = acc.wrapping_add(deltas[i]);
        }
        out.push(acc);
        assert(out@ =~= delta_decoded(deltas@).take(i as int + 1));
        i += 1;
    }
    assert(out@ =~= delta_decoded(deltas@));
    out
}

/// Encodes absolute values into a delta array.
pub fn delta_encode(values: &Vec<i64>) -> (r: Vec<i64>)
    ensures
        r@ == delta_encoded(values@),
{
    let mut out: Vec<i64> = Vec::new();
    let mut i: usize = 0;
    while i < values.len()
        invariant
            i <= values.len(),
            out@ == delta_encoded(values@).take(i as int),
        decreases values.len() - i,
    {
        if i == 0 {
            out.push(values[0]);
        } else {
            out.push(values[i].wrapping_sub(values[i - 1]));
        }
        assert(out@ =~= delta_encoded(values@).take(i as int + 1));
        i += 1;
    }
    assert(out@ =~= delta_encoded(values@));
    out
}

proof fn lemma_delta_value_round_trip(values: Seq<i64>, i: int)
    requires
        0 <= i < values.len(),
    ensures
        delta_value(delta_encoded(values), i) == values[i],
    decreases i,
{
    if i > 0 {
        lemma_delta_value_round_trip(values, i - 1);
    }
}

/// Delta decoding is the inverse of delta encoding: for any sequence of
/// 64-bit integers, encoding and then decoding yields the original sequence.
pub proof fn lemma_delta_round_trip(values: Seq<i64>)
    ensures
        delta_decoded(delta_encoded(values)) == values,
{
    assert forall|i: int| 0 <= i < values.len() implies delta_value(
        delta_encoded(values),
        i,
    ) == values[i] by {
        lemma_delta_value_round_trip(values, i);
    }
    assert(delta_decoded(delta_encoded(values)) =~= values);
}

} // verus!
