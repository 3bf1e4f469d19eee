use osm_pbf_dump::config::{active_tables, Config, TableConfig};
use osm_pbf_dump::schema::{create_tables, insert_statements};

#[test]
fn full_schema_has_one_create_table_per_table() {
    let stmts = create_tables(&Config::default());
    assert_eq!(stmts.len(), 12);
    assert_eq!(stmts[0], "CREATE TABLE header (key TEXT, value TEXT)");
    assert!(stmts[1].starts_with("CREATE TABLE nodes "));
    assert!(stmts[2].starts_with("CREATE TABLE node_tags "));
    assert!(stmts[3].starts_with("CREATE TABLE node_info "));
    assert!(stmts[4].starts_with("CREATE TABLE ways "));
    assert!(stmts[5].starts_with("CREATE TABLE way_tags "));
    assert!(stmts[6].starts_with("CREATE TABLE way_info "));
    assert!(stmts[7].starts_with("CREATE TABLE way_refs "));
    assert!(stmts[8].starts_with("CREATE TABLE relations "));
    assert!(stmts[9].starts_with("CREATE TABLE relation_members "));
    assert!(stmts[10].starts_with("CREATE TABLE relation_tags "));
    assert!(stmts[11].starts_with("CREATE TABLE relation_info "));
}

#[test]
fn index_statement_is_named_from_table_and_columns() {
    let mut cfg = Config::default();
    cfg.node_tags = TableConfig { skip: false, create_index_on: vec!["node_id, key".to_string()] };
    let stmts = create_tables(&cfg);
    assert!(stmts.contains(&"CREATE INDEX node_tags_node_id_key ON node_tags (node_id, key)".to_string()));
}

#[test]
fn single_column_index_statement() {
    let mut cfg = Config::default();
    cfg.nodes = TableConfig { skip: false, create_index_on: vec![" id ".to_string()] };
    let stmts = create_tables(&cfg);
    assert!(stmts.contains(&"CREATE INDEX nodes_id ON nodes (id)".to_string()));
}

#[test]
fn skipping_a_parent_drops_child_ddl() {
    let mut cfg = Config::default();
    cfg.nodes.skip = true;
    let stmts = create_tables(&cfg);
    assert!(!stmts.iter().any(|s| s.contains("CREATE TABLE nodes ")));
    assert!(!stmts.iter().any(|s| s.contains("node_tags")));
    assert!(!stmts.iter().any(|s| s.contains("node_info")));
    assert!(stmts.iter().any(|s| s.contains("CREATE TABLE ways ")));
}

#[test]
fn skipping_a_child_keeps_the_parent() {
    let mut cfg = Config::default();
    cfg.way_refs.skip = true;
    let stmts = create_tables(&cfg);
    assert!(stmts.iter().any(|s| s.contains("CREATE TABLE ways ")));
    assert!(!stmts.iter().any(|s| s.contains("way_refs")));
}

#[test]
fn active_tables_respect_parent_dependency() {
    let mut cfg = Config::default();
    cfg.relations.skip = true;
    let act = active_tables(&cfg);
    assert!(!act.relations);
    assert!(!act.relation_tags);
    assert!(!act.relation_info);
    assert!(!act.relation_members);
    assert!(act.nodes);
    assert!(act.node_tags);
}

#[test]
fn insert_statements_follow_active_tables() {
    let mut cfg = Config::default();
    cfg.nodes.skip = true;
    let stmts = insert_statements(&cfg);
    assert_eq!(stmts.len(), 11);
    assert!(stmts[0].is_none());
    assert!(stmts[1].is_none());
    assert!(stmts[2].is_none());
    assert_eq!(stmts[3].as_deref(), Some("INSERT INTO ways (id) VALUES (?1)"));
    assert_eq!(
        stmts[10].as_deref(),
        Some(
            "INSERT INTO relation_members (relation_id, member_node_id, member_way_id, member_relation_id, role) VALUES (?1, ?2, ?3, ?4, ?5)"
        )
    );
}
