use osm_pbf_dump::config::Config;
use osm_pbf_dump::error::DecodeError;
use osm_pbf_dump::load::{load, plan_output, BlockOutcome, OutputPlan};
use osm_pbf_dump::model::{
    BoundingBox, DenseNodes, HeaderBlock, PrimitiveBlock, PrimitiveGroup, Relation, Way,
};
use osm_pbf_dump::rows::HeaderValue;
use osm_pbf_dump::strtab::StringTable;

fn empty_group() -> PrimitiveGroup {
    PrimitiveGroup { nodes: vec![], dense: None, ways: vec![], relations: vec![] }
}

fn block_with(groups: Vec<PrimitiveGroup>, table: Vec<&[u8]>) -> PrimitiveBlock {
    PrimitiveBlock {
        stringtable: StringTable { s: table.iter().map(|b| b.to_vec()).collect() },
        primitivegroup: groups,
        granularity: None,
        lat_offset: None,
        lon_offset: None,
        date_granularity: None,
    }
}

fn header() -> HeaderBlock {
    HeaderBlock {
        bbox: Some(BoundingBox { left: -1, right: 2, top: 3, bottom: -4 }),
        required_features: vec!["OsmSchema-V0.6".to_string(), "DenseNodes".to_string()],
        optional_features: vec![],
        writingprogram: Some("writer".to_string()),
        source: None,
        osmosis_replication_timestamp: Some(12345),
        osmosis_replication_sequence_number: None,
        osmosis_replication_base_url: None,
    }
}

#[test]
fn two_dense_nodes_end_to_end() {
    let mut group = empty_group();
    group.dense = Some(DenseNodes {
        id: vec![1, 1],
        lat: vec![0, 0],
        lon: vec![0, 0],
        denseinfo: None,
        keys_vals: vec![],
    });
    let blocks = vec![BlockOutcome::Primitive(block_with(vec![group], vec![b""]))];
    let mut cfg = Config::default();
    cfg.ways.skip = true;
    cfg.relations.skip = true;
    let rows = load(&blocks, &cfg).unwrap();
    assert_eq!(rows.body.nodes.len(), 2);
    assert_eq!(rows.body.nodes[0].id, 1);
    assert_eq!(rows.body.nodes[1].id, 2);
    assert_eq!(rows.body.node_tags.len(), 0);
    assert_eq!(rows.body.node_info.len(), 0);
    assert_eq!(rows.body.ways.len(), 0);
    assert_eq!(rows.body.way_refs.len(), 0);
    assert_eq!(rows.body.relations.len(), 0);
    assert_eq!(rows.body.relation_members.len(), 0);
    assert_eq!(rows.header.len(), 0);
}

#[test]
fn way_refs_preserve_stream_order() {
    let mut group = empty_group();
    group.ways = vec![Way { id: 30, keys: vec![], vals: vec![], info: None, refs: vec![5, 2, -2] }];
    let blocks = vec![BlockOutcome::Primitive(block_with(vec![group], vec![b""]))];
    let rows = load(&blocks, &Config::default()).unwrap();
    assert_eq!(rows.body.way_refs.len(), 3);
    let r = &rows.body.way_refs;
    assert_eq!((r[0].way_id, r[0].ref_node_id), (30, 5));
    assert_eq!((r[1].way_id, r[1].ref_node_id), (30, 7));
    assert_eq!((r[2].way_id, r[2].ref_node_id), (30, 5));
}

#[test]
fn bad_string_index_aborts_the_whole_load() {
    let mut good = empty_group();
    good.dense = Some(DenseNodes {
        id: vec![1],
        lat: vec![0],
        lon: vec![0],
        denseinfo: None,
        keys_vals: vec![],
    });
    let mut bad = empty_group();
    bad.relations = vec![Relation {
        id: 9,
        keys: vec![],
        vals: vec![],
        info: None,
        roles_sid: vec![40],
        memids: vec![1],
        types: vec![0],
    }];
    let blocks = vec![
        BlockOutcome::Primitive(block_with(vec![good], vec![b""])),
        BlockOutcome::Primitive(block_with(vec![bad], vec![b""])),
    ];
    let err = load(&blocks, &Config::default()).unwrap_err();
    assert_eq!(err, DecodeError::BadStringIndex);
}

#[test]
fn unknown_and_malformed_blocks_are_skipped() {
    let mut group = empty_group();
    group.dense = Some(DenseNodes {
        id: vec![4],
        lat: vec![0],
        lon: vec![0],
        denseinfo: None,
        keys_vals: vec![],
    });
    let blocks = vec![
        BlockOutcome::Malformed,
        BlockOutcome::Unknown(512),
        BlockOutcome::Primitive(block_with(vec![group], vec![b""])),
    ];
    let rows = load(&blocks, &Config::default()).unwrap();
    assert_eq!(rows.body.nodes.len(), 1);
    assert_eq!(rows.body.nodes[0].id, 4);
}

#[test]
fn header_block_projects_ordered_pairs() {
    let blocks = vec![BlockOutcome::Header(header())];
    let rows = load(&blocks, &Config::default()).unwrap();
    let h = &rows.header;
    assert_eq!(h.len(), 8);
    assert_eq!(h[0].key, "bbox_left");
    assert!(matches!(h[0].value, HeaderValue::Int(-1)));
    assert_eq!(h[1].key, "bbox_right");
    assert_eq!(h[2].key, "bbox_top");
    assert_eq!(h[3].key, "bbox_bottom");
    assert_eq!(h[4].key, "required_feature");
    assert!(matches!(&h[4].value, HeaderValue::Text(t) if t == "OsmSchema-V0.6"));
    assert_eq!(h[5].key, "required_feature");
    assert!(matches!(&h[5].value, HeaderValue::Text(t) if t == "DenseNodes"));
    assert_eq!(h[6].key, "writing_program");
    assert!(matches!(&h[6].value, HeaderValue::Text(t) if t == "writer"));
    assert_eq!(h[7].key, "osmosis_replication_timestamp");
    assert!(matches!(h[7].value, HeaderValue::Int(12345)));
}

#[test]
fn header_rows_include_replication_fields_in_order() {
    let mut hb = header();
    hb.writingprogram = None;
    let blocks = vec![BlockOutcome::Header(hb)];
    let rows = load(&blocks, &Config::default()).unwrap();
    let h = &rows.header;
    assert_eq!(h.len(), 7);
    assert_eq!(h[6].key, "osmosis_replication_timestamp");
    assert!(matches!(h[6].value, HeaderValue::Int(12345)));
}

#[test]
fn skipped_header_table_gets_no_rows() {
    let blocks = vec![BlockOutcome::Header(header())];
    let mut cfg = Config::default();
    cfg.header.skip = true;
    let rows = load(&blocks, &cfg).unwrap();
    assert_eq!(rows.header.len(), 0);
}

#[test]
fn overwrite_flag_replaces_existing_destination() {
    assert_eq!(plan_output(true, true), OutputPlan::ReplaceExisting);
    assert_eq!(plan_output(true, false), OutputPlan::CreateFresh);
}

#[test]
fn existing_destination_without_overwrite_is_refused() {
    assert_eq!(plan_output(false, true), OutputPlan::RefuseExisting);
    assert_eq!(plan_output(false, false), OutputPlan::CreateFresh);
}
