use osm_pbf_dump::config::Config;
use osm_pbf_dump::error::DecodeError;
use osm_pbf_dump::model::{DenseInfo, DenseNodes, Info, PrimitiveBlock, PrimitiveGroup, Relation, Way};
use osm_pbf_dump::router::project_primitive_block;
use osm_pbf_dump::strtab::StringTable;

fn empty_group() -> PrimitiveGroup {
    PrimitiveGroup { nodes: vec![], dense: None, ways: vec![], relations: vec![] }
}

fn block_with(groups: Vec<PrimitiveGroup>, table: Vec<&[u8]>) -> PrimitiveBlock {
    PrimitiveBlock {
        stringtable: StringTable { s: table.iter().map(|b| b.to_vec()).collect() },
        primitivegroup: groups,
        granularity: None,
        lat_offset: None,
        lon_offset: None,
        date_granularity: None,
    }
}

fn dense(id: Vec<i64>, lat: Vec<i64>, lon: Vec<i64>, keys_vals: Vec<i32>) -> DenseNodes {
    DenseNodes { id, lat, lon, denseinfo: None, keys_vals }
}

#[test]
fn dense_nodes_decode_and_normalize() {
    let mut group = empty_group();
    group.dense = Some(dense(vec![1, 1], vec![10, 5], vec![-3, 1], vec![]));
    let block = block_with(vec![group], vec![b""]);
    let rows = project_primitive_block(&block, &Config::default()).unwrap();
    assert_eq!(rows.nodes.len(), 2);
    assert_eq!(rows.nodes[0].id, 1);
    assert_eq!(rows.nodes[1].id, 2);
    // granularity defaults to 100 nanodegrees per unit
    assert_eq!(rows.nodes[0].lat, 1000);
    assert_eq!(rows.nodes[1].lat, 1500);
    assert_eq!(rows.nodes[0].lon, -300);
    assert_eq!(rows.nodes[1].lon, -200);
}

#[test]
fn dense_tags_follow_sentinels() {
    let mut group = empty_group();
    group.dense = Some(dense(vec![1, 1], vec![0, 0], vec![0, 0], vec![1, 2, 0, 0]));
    let block = block_with(vec![group], vec![b"", b"amenity", b"cafe"]);
    let rows = project_primitive_block(&block, &Config::default()).unwrap();
    assert_eq!(rows.node_tags.len(), 1);
    assert_eq!(rows.node_tags[0].id, 1);
    assert_eq!(rows.node_tags[0].key, "amenity");
    assert_eq!(rows.node_tags[0].value, "cafe");
}

#[test]
fn dense_tag_stream_with_zero_tags_is_one_sentinel_per_node() {
    let mut group = empty_group();
    group.dense = Some(dense(vec![1, 1, 1], vec![0, 0, 0], vec![0, 0, 0], vec![0, 0, 0]));
    let block = block_with(vec![group], vec![b""]);
    let rows = project_primitive_block(&block, &Config::default()).unwrap();
    assert_eq!(rows.nodes.len(), 3);
    assert_eq!(rows.node_tags.len(), 0);
}

#[test]
fn dense_tag_stream_sentinel_mismatch_is_fatal() {
    let mut group = empty_group();
    group.dense = Some(dense(vec![1, 1], vec![0, 0], vec![0, 0], vec![0]));
    let block = block_with(vec![group], vec![b""]);
    let err = project_primitive_block(&block, &Config::default()).unwrap_err();
    assert_eq!(err, DecodeError::TagStreamMismatch);
}

#[test]
fn dense_length_mismatch_is_fatal() {
    let mut group = empty_group();
    group.dense = Some(dense(vec![1, 1], vec![0], vec![0, 0], vec![]));
    let block = block_with(vec![group], vec![b""]);
    let err = project_primitive_block(&block, &Config::default()).unwrap_err();
    assert_eq!(err, DecodeError::LengthMismatch);
}

#[test]
fn dense_info_defaults_visible_to_true() {
    let mut group = empty_group();
    let mut d = dense(vec![7], vec![0], vec![0], vec![]);
    d.denseinfo = Some(DenseInfo {
        version: vec![3],
        timestamp: vec![1_500_000_000],
        uid: vec![11],
        user_sid: vec![1],
        visible: vec![],
    });
    group.dense = Some(d);
    let block = block_with(vec![group], vec![b"", b"mapper"]);
    let rows = project_primitive_block(&block, &Config::default()).unwrap();
    assert_eq!(rows.node_info.len(), 1);
    let info = &rows.node_info[0];
    assert_eq!(info.id, 7);
    assert_eq!(info.version, Some(3));
    assert_eq!(info.timestamp, Some(1_500_000_000));
    assert_eq!(info.uid, Some(11));
    assert_eq!(info.user.as_deref(), Some("mapper"));
    assert_eq!(info.visible, Some(true));
}

#[test]
fn dense_info_negative_user_sid_is_fatal() {
    let mut group = empty_group();
    let mut d = dense(vec![7, 1], vec![0, 0], vec![0, 0], vec![]);
    d.denseinfo = Some(DenseInfo {
        version: vec![1, 1],
        timestamp: vec![0, 0],
        uid: vec![0, 0],
        user_sid: vec![0, -1],
        visible: vec![true, true],
    });
    group.dense = Some(d);
    let block = block_with(vec![group], vec![b""]);
    let err = project_primitive_block(&block, &Config::default()).unwrap_err();
    assert_eq!(err, DecodeError::BadStringIndex);
}

#[test]
fn excluded_tag_keys_are_dropped() {
    let mut group = empty_group();
    group.dense = Some(dense(vec![1], vec![0], vec![0], vec![1, 2, 3, 4, 0]));
    let block = block_with(vec![group], vec![b"", b"created_by", b"editor", b"name", b"x"]);
    let mut cfg = Config::default();
    cfg.skip_tag_keys = vec!["created_by".to_string()];
    let rows = project_primitive_block(&block, &cfg).unwrap();
    assert_eq!(rows.node_tags.len(), 1);
    assert_eq!(rows.node_tags[0].key, "name");
    assert_eq!(rows.node_tags[0].value, "x");
}

#[test]
fn tag_with_index_out_of_range_is_fatal() {
    let mut group = empty_group();
    group.dense = Some(dense(vec![1], vec![0], vec![0], vec![9, 1, 0]));
    let block = block_with(vec![group], vec![b"", b"name"]);
    let err = project_primitive_block(&block, &Config::default()).unwrap_err();
    assert_eq!(err, DecodeError::BadStringIndex);
}

#[test]
fn tag_with_invalid_utf8_is_fatal() {
    let mut group = empty_group();
    group.dense = Some(dense(vec![1], vec![0], vec![0], vec![1, 2, 0]));
    let block = block_with(vec![group], vec![b"", b"\xff\xfe", b"v"]);
    let err = project_primitive_block(&block, &Config::default()).unwrap_err();
    assert_eq!(err, DecodeError::BadUtf8);
}

#[test]
fn plain_node_with_tags_and_info() {
    let mut group = empty_group();
    group.nodes = vec![osm_pbf_dump::model::Node {
        id: 44,
        keys: vec![1],
        vals: vec![2],
        info: Some(Info {
            version: Some(2),
            timestamp: Some(1_500_000_000),
            uid: Some(9),
            user_sid: Some(3),
            visible: Some(false),
        }),
        lat: 5,
        lon: -5,
    }];
    let block = block_with(vec![group], vec![b"", b"highway", b"stop", b"someone"]);
    let rows = project_primitive_block(&block, &Config::default()).unwrap();
    assert_eq!(rows.nodes.len(), 1);
    assert_eq!(rows.nodes[0].lat, 500);
    assert_eq!(rows.nodes[0].lon, -500);
    assert_eq!(rows.node_tags.len(), 1);
    assert_eq!(rows.node_tags[0].key, "highway");
    assert_eq!(rows.node_info.len(), 1);
    assert_eq!(rows.node_info[0].user.as_deref(), Some("someone"));
    assert_eq!(rows.node_info[0].visible, Some(false));
}

#[test]
fn way_member_populates_only_the_way_column() {
    let mut group = empty_group();
    group.relations = vec![Relation {
        id: 77,
        keys: vec![],
        vals: vec![],
        info: None,
        roles_sid: vec![1],
        memids: vec![5],
        types: vec![1],
    }];
    let block = block_with(vec![group], vec![b"", b"outer"]);
    let rows = project_primitive_block(&block, &Config::default()).unwrap();
    assert_eq!(rows.relations.len(), 1);
    assert_eq!(rows.relation_members.len(), 1);
    let m = &rows.relation_members[0];
    assert_eq!(m.relation_id, 77);
    assert_eq!(m.member_way_id, Some(5));
    assert_eq!(m.member_node_id, None);
    assert_eq!(m.member_relation_id, None);
    assert_eq!(m.role, "outer");
}

#[test]
fn member_rows_keep_order_and_delta_decode() {
    let mut group = empty_group();
    group.relations = vec![Relation {
        id: 9,
        keys: vec![],
        vals: vec![],
        info: None,
        roles_sid: vec![1, 2, 1],
        memids: vec![10, -4, 14],
        types: vec![0, 1, 2],
    }];
    let block = block_with(vec![group], vec![b"", b"inner", b"outer"]);
    let rows = project_primitive_block(&block, &Config::default()).unwrap();
    let members = &rows.relation_members;
    assert_eq!(members.len(), 3);
    assert_eq!(members[0].member_node_id, Some(10));
    assert_eq!(members[0].role, "inner");
    assert_eq!(members[1].member_way_id, Some(6));
    assert_eq!(members[1].role, "outer");
    assert_eq!(members[2].member_relation_id, Some(20));
    assert_eq!(members[2].role, "inner");
}

#[test]
fn unknown_member_type_code_is_fatal() {
    let mut group = empty_group();
    group.relations = vec![Relation {
        id: 9,
        keys: vec![],
        vals: vec![],
        info: None,
        roles_sid: vec![1],
        memids: vec![10],
        types: vec![7],
    }];
    let block = block_with(vec![group], vec![b"", b"role"]);
    let err = project_primitive_block(&block, &Config::default()).unwrap_err();
    assert_eq!(err, DecodeError::BadMemberType);
}

#[test]
fn member_array_length_mismatch_is_fatal() {
    let mut group = empty_group();
    group.relations = vec![Relation {
        id: 9,
        keys: vec![],
        vals: vec![],
        info: None,
        roles_sid: vec![1],
        memids: vec![10, 2],
        types: vec![0, 0],
    }];
    let block = block_with(vec![group], vec![b"", b"role"]);
    let err = project_primitive_block(&block, &Config::default()).unwrap_err();
    assert_eq!(err, DecodeError::LengthMismatch);
}

#[test]
fn skipping_nodes_drops_node_children_even_with_errors_inside() {
    let mut group = empty_group();
    // a bad tag index inside the dense block: never read when nodes are skipped
    group.dense = Some(dense(vec![1], vec![0], vec![0], vec![99, 1, 0]));
    let block = block_with(vec![group], vec![b""]);
    let mut cfg = Config::default();
    cfg.nodes.skip = true;
    let rows = project_primitive_block(&block, &cfg).unwrap();
    assert_eq!(rows.nodes.len(), 0);
    assert_eq!(rows.node_tags.len(), 0);
    assert_eq!(rows.node_info.len(), 0);
}

#[test]
fn skipping_parent_ways_drops_way_children() {
    let mut group = empty_group();
    group.ways = vec![Way { id: 3, keys: vec![1], vals: vec![2], info: None, refs: vec![5, 2] }];
    let block = block_with(vec![group], vec![b"", b"highway", b"primary"]);
    let mut cfg = Config::default();
    cfg.ways.skip = true;
    // way_tags and way_refs themselves are not skipped, yet must stay empty
    let rows = project_primitive_block(&block, &cfg).unwrap();
    assert_eq!(rows.ways.len(), 0);
    assert_eq!(rows.way_tags.len(), 0);
    assert_eq!(rows.way_refs.len(), 0);
}
