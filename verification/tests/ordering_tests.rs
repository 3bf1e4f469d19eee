use osm_pbf_dump::config::Config;
use osm_pbf_dump::error::DecodeError;
use osm_pbf_dump::load::{load, BlockOutcome};
use osm_pbf_dump::model::{
    DenseNodes, Info, Node, PrimitiveBlock, PrimitiveGroup, Relation, Way,
};
use osm_pbf_dump::strtab::StringTable;

fn empty_group() -> PrimitiveGroup {
    PrimitiveGroup { nodes: vec![], dense: None, ways: vec![], relations: vec![] }
}

fn block_with(groups: Vec<PrimitiveGroup>, table: Vec<&[u8]>) -> PrimitiveBlock {
    PrimitiveBlock {
        stringtable: StringTable { s: table.iter().map(|b| b.to_vec()).collect() },
        primitivegroup: groups,
        granularity: None,
        lat_offset: None,
        lon_offset: None,
        date_granularity: None,
    }
}

#[test]
fn rows_across_groups_and_blocks_keep_encounter_order() {
    let mut g1 = empty_group();
    g1.dense = Some(DenseNodes {
        id: vec![1],
        lat: vec![0],
        lon: vec![0],
        denseinfo: None,
        keys_vals: vec![],
    });
    let mut g2 = empty_group();
    g2.nodes = vec![Node { id: 2, keys: vec![], vals: vec![], info: None, lat: 0, lon: 0 }];
    let mut g3 = empty_group();
    g3.dense = Some(DenseNodes {
        id: vec![3],
        lat: vec![0],
        lon: vec![0],
        denseinfo: None,
        keys_vals: vec![],
    });
    let blocks = vec![
        BlockOutcome::Primitive(block_with(vec![g1, g2], vec![b""])),
        BlockOutcome::Primitive(block_with(vec![g3], vec![b""])),
    ];
    let rows = load(&blocks, &Config::default()).unwrap();
    let ids: Vec<i64> = rows.body.nodes.iter().map(|n| n.id).collect();
    assert_eq!(ids, vec![1, 2, 3]);
}

#[test]
fn dense_takes_precedence_over_plain_nodes_in_one_group() {
    let mut g = empty_group();
    g.dense = Some(DenseNodes {
        id: vec![10],
        lat: vec![0],
        lon: vec![0],
        denseinfo: None,
        keys_vals: vec![],
    });
    g.nodes = vec![Node { id: 99, keys: vec![], vals: vec![], info: None, lat: 0, lon: 0 }];
    let blocks = vec![BlockOutcome::Primitive(block_with(vec![g], vec![b""]))];
    let rows = load(&blocks, &Config::default()).unwrap();
    assert_eq!(rows.body.nodes.len(), 1);
    assert_eq!(rows.body.nodes[0].id, 10);
}

#[test]
fn block_scale_parameters_are_applied() {
    let mut g = empty_group();
    g.nodes = vec![Node { id: 1, keys: vec![], vals: vec![], info: None, lat: 3, lon: 4 }];
    let mut b = block_with(vec![g], vec![b""]);
    b.granularity = Some(1000);
    b.lat_offset = Some(50);
    b.lon_offset = Some(-50);
    let blocks = vec![BlockOutcome::Primitive(b)];
    let rows = load(&blocks, &Config::default()).unwrap();
    assert_eq!(rows.body.nodes[0].lat, 3050);
    assert_eq!(rows.body.nodes[0].lon, 3950);
}

#[test]
fn info_timestamp_uses_block_date_granularity() {
    let mut g = empty_group();
    g.ways = vec![Way {
        id: 1,
        keys: vec![],
        vals: vec![],
        info: Some(Info {
            version: Some(1),
            timestamp: Some(6),
            uid: None,
            user_sid: None,
            visible: None,
        }),
        refs: vec![],
    }];
    let mut b = block_with(vec![g], vec![b""]);
    b.date_granularity = Some(500);
    let blocks = vec![BlockOutcome::Primitive(b)];
    let rows = load(&blocks, &Config::default()).unwrap();
    assert_eq!(rows.body.way_info.len(), 1);
    // 6 units of 500 ms are 3000 ms, which is 3 epoch seconds
    assert_eq!(rows.body.way_info[0].timestamp, Some(3));
    assert_eq!(rows.body.way_info[0].user, None);
    assert_eq!(rows.body.way_info[0].visible, None);
}

#[test]
fn negative_role_index_is_fatal() {
    let mut g = empty_group();
    g.relations = vec![Relation {
        id: 1,
        keys: vec![],
        vals: vec![],
        info: None,
        roles_sid: vec![-1],
        memids: vec![2],
        types: vec![0],
    }];
    let blocks = vec![BlockOutcome::Primitive(block_with(vec![g], vec![b""]))];
    let err = load(&blocks, &Config::default()).unwrap_err();
    assert_eq!(err, DecodeError::BadStringIndex);
}

#[test]
fn relation_tags_pair_positionally_up_to_the_shorter_array() {
    let mut g = empty_group();
    g.relations = vec![Relation {
        id: 6,
        keys: vec![1, 3],
        vals: vec![2],
        info: None,
        roles_sid: vec![],
        memids: vec![],
        types: vec![],
    }];
    let blocks =
        vec![BlockOutcome::Primitive(block_with(vec![g], vec![b"", b"type", b"route", b"name"]))];
    let rows = load(&blocks, &Config::default()).unwrap();
    assert_eq!(rows.body.relation_tags.len(), 1);
    assert_eq!(rows.body.relation_tags[0].key, "type");
    assert_eq!(rows.body.relation_tags[0].value, "route");
}

#[test]
fn dense_tag_value_position_zero_is_not_a_sentinel() {
    // the value slot may legally hold index 0 (the empty string entry)
    let mut g = empty_group();
    g.dense = Some(DenseNodes {
        id: vec![1],
        lat: vec![0],
        lon: vec![0],
        denseinfo: None,
        keys_vals: vec![1, 0, 0],
    });
    let blocks = vec![BlockOutcome::Primitive(block_with(vec![g], vec![b"", b"note"]))];
    let rows = load(&blocks, &Config::default()).unwrap();
    assert_eq!(rows.body.node_tags.len(), 1);
    assert_eq!(rows.body.node_tags[0].key, "note");
    assert_eq!(rows.body.node_tags[0].value, "");
}
