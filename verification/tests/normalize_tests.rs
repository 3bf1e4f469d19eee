use osm_pbf_dump::normalize::{normalize_coord, normalize_timestamp};

#[test]
fn coordinate_normalization_default_granularity() {
    // granularity 100 nanodegrees per unit, no offset
    let nano = normalize_coord(1_234_567_890, 100, 0);
    assert_eq!(nano, 123_456_789_000);
    let degrees = 1e-9 * nano as f64;
    assert!((degrees - 123.456_789_0).abs() < 1e-12);
}

#[test]
fn coordinate_normalization_applies_offset() {
    assert_eq!(normalize_coord(10, 100, 7), 1007);
    assert_eq!(normalize_coord(-10, 100, 7), -993);
}

#[test]
fn timestamp_normalization_default_granularity() {
    // date granularity 1000 ms per unit: 1500000000 * 1000 / 1000 ms
    assert_eq!(normalize_timestamp(1_500_000_000, 1000), 1_500_000_000);
}

#[test]
fn timestamp_normalization_sub_second_granularity() {
    // 500 ms per unit: 4 units are 2000 ms, which is 2 seconds
    assert_eq!(normalize_timestamp(4, 500), 2);
    // 3 units are 1500 ms; truncating division gives 1 second
    assert_eq!(normalize_timestamp(3, 500), 1);
}

#[test]
fn timestamp_normalization_truncates_toward_zero() {
    assert_eq!(normalize_timestamp(-3, 500), -1);
    assert_eq!(normalize_timestamp(-1, 1), 0);
}
