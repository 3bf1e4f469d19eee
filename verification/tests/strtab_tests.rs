use osm_pbf_dump::error::DecodeError;
use osm_pbf_dump::strtab::StringTable;

fn table() -> StringTable {
    StringTable { s: vec![b"".to_vec(), b"name".to_vec(), vec![0xff, 0xfe]] }
}

#[test]
fn resolve_returns_decoded_text() {
    assert_eq!(table().resolve(1).unwrap(), "name");
    assert_eq!(table().resolve(0).unwrap(), "");
}

#[test]
fn resolve_rejects_out_of_range_index() {
    assert_eq!(table().resolve(3).unwrap_err(), DecodeError::BadStringIndex);
    assert_eq!(table().resolve(-1).unwrap_err(), DecodeError::BadStringIndex);
}

#[test]
fn resolve_rejects_invalid_utf8() {
    assert_eq!(table().resolve(2).unwrap_err(), DecodeError::BadUtf8);
}
