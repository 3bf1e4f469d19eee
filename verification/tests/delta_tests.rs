use osm_pbf_dump::delta::{delta_decode, delta_encode};

#[test]
fn decode_way_ref_deltas() {
    let deltas: Vec<i64> = vec![5, 2, -2];
    assert_eq!(delta_decode(&deltas), vec![5, 7, 5]);
}

#[test]
fn decode_empty() {
    let deltas: Vec<i64> = vec![];
    assert_eq!(delta_decode(&deltas), Vec::<i64>::new());
}

#[test]
fn decode_mixed_signs() {
    let deltas: Vec<i64> = vec![10, -1, 4, -2];
    assert_eq!(delta_decode(&deltas), vec![10, 9, 13, 11]);
}

#[test]
fn encode_then_decode_is_identity() {
    let values: Vec<i64> = vec![0, -7, 1_000_000_000_000, 42, 42, i64::MAX, i64::MIN, -1];
    let encoded = delta_encode(&values);
    assert_eq!(delta_decode(&encoded), values);
}

#[test]
fn encode_produces_differences() {
    let values: Vec<i64> = vec![5, 7, 5];
    assert_eq!(delta_encode(&values), vec![5, 2, -2]);
}

#[test]
fn round_trip_at_extremes_wraps_cleanly() {
    let values: Vec<i64> = vec![i64::MIN, i64::MAX, 0, i64::MAX, i64::MIN];
    let encoded = delta_encode(&values);
    assert_eq!(delta_decode(&encoded), values);
}
