//! Load configuration: input and output paths, the overwrite flag, the
//! global tag-key exclusion set, and per-table skip and index settings.

use vstd::prelude::*;

verus! {

/// Settings of one logical table: whether it is skipped, and the optional
/// secondary indexes to create, each given as a comma-separated column list.
pub struct TableConfig {
    pub skip: bool,
    pub create_index_on: Vec<String>,
}

impl Default for TableConfig {
    /// A table that is kept and gets no secondary index.
    fn default() -> (r: Self)
        ensures
            !r.skip,
            r.create_index_on@.len() == 0,
    {
        TableConfig { skip: false, create_index_on: Vec::new() }
    }
}

/// The whole load configuration.
pub struct Config {
    pub input_pbf: String,
    pub output_db: String,
    pub overwrite_output: bool,
    pub skip_tag_keys: Vec<String>,
    pub header: TableConfig,
    pub nodes: TableConfig,
    pub node_info: TableConfig,
    pub node_tags: TableConfig,
    pub relations: TableConfig,
    pub relation_info: TableConfig,
    pub relation_members: TableConfig,
    pub relation_tags: TableConfig,
    pub ways: TableConfig,
    pub way_info: TableConfig,
    pub way_refs: TableConfig,
    pub way_tags: TableConfig,
}

impl Default for Config {
    /// Empty paths, no overwrite, no excluded tag keys, every table kept.
    fn default() -> (r: Self)
        ensures
            r.input_pbf@.len() == 0,
            r.output_db@.len() == 0,
            !r.overwrite_output,
            r.skip_tag_keys@.len() == 0,
            !r.header.skip && r.header.create_index_on@.len() == 0,
            !r.nodes.skip && r.nodes.create_index_on@.len() == 0,
            !r.node_info.skip && r.node_info.create_index_on@.len() == 0,
            !r.node_tags.skip && r.node_tags.create_index_on@.len() == 0,
            !r.relations.skip && r.relations.create_index_on@.len() == 0,
            !r.relation_info.skip && r.relation_info.create_index_on@.len() == 0,
            !r.relation_members.skip && r.relation_members.create_index_on@.len() == 0,
            !r.relation_tags.skip && r.relation_tags.create_index_on@.len() == 0,
            !r.ways.skip && r.ways.create_index_on@.len() == 0,
            !r.way_info.skip && r.way_info.create_index_on@.len() == 0,
            !r.way_refs.skip && r.way_refs.create_index_on@.len() == 0,
            !r.way_tags.skip && r.way_tags.create_index_on@.len() == 0,
    {
        Config {
            input_pbf: String::new(),
            output_db: String::new(),
            overwrite_output: false,
            skip_tag_keys: Vec::new(),
            header: TableConfig::default(),
            nodes: TableConfig::default(),
            node_info: TableConfig::default(),
            node_tags: TableConfig::default(),
            relations: TableConfig::default(),
            relation_info: TableConfig::default(),
            relation_members: TableConfig::default(),
            relation_tags: TableConfig::default(),
            ways: TableConfig::default(),
            way_info: TableConfig::default(),
            way_refs: TableConfig::default(),
            way_tags: TableConfig::default(),
        }
    }
}

/// Which tables receive rows. A dependent table is active only when both it
/// and its parent table are not skipped; an inactive table gets no rows, no
/// statements and no DDL.
#[derive(Clone, Copy, Debug, PartialEq, Eq, Structural)]
pub struct ActiveTables {
    pub header: bool,
    pub nodes: bool,
    pub node_tags: bool,
    pub node_info: bool,
    pub ways: bool,
    pub way_tags: bool,
    pub way_info: bool,
    pub way_refs: bool,
    pub relations: bool,
    pub relation_tags: bool,
    pub relation_info: bool,
    pub relation_members: bool,
}

/// The active-table set that a configuration selects.
pub open spec fn spec_active(cfg: Config) -> ActiveTables {
    ActiveTables {
        header: !cfg.header.skip,
        nodes: !cfg.nodes.skip,
        node_tags: !cfg.nodes.skip && !cfg.node_tags.skip,
        node_info: !cfg.nodes.skip && !cfg.node_info.skip,
        ways: !cfg.ways.skip,
        way_tags: !cfg.ways.skip && !cfg.way_tags.skip,
        way_info: !cfg.ways.skip && !cfg.way_info.skip,
        way_refs: !cfg.ways.skip && !cfg.way_refs.skip,
        relations: !cfg.relations.skip,
        relation_tags: !cfg.relations.skip && !cfg.relation_tags.skip,
        relation_info: !cfg.relations.skip && !cfg.relation_info.skip,
        relation_members: !cfg.relations.skip && !cfg.relation_members.skip,
    }
}

/// Computes once, from the configuration, which tables are active.
pub fn active_tables(cfg: &Config) -> (r: ActiveTables)
    ensures
        r == spec_active(*cfg),
{
    ActiveTables {
        header: !cfg.header.skip,
        nodes: !cfg.nodes.skip,
        node_tags: !cfg.nodes.skip && !cfg.node_tags.skip,
        node_info: !cfg.nodes.skip && !cfg.node_info.skip,
        ways: !cfg.ways.skip,
        way_tags: !cfg.ways.skip && !cfg.way_tags.skip,
        way_info: !cfg.ways.skip && !cfg.way_info.skip,
        way_refs: !cfg.ways.skip && !cfg.way_refs.skip,
        relations: !cfg.relations.skip,
        relation_tags: !cfg.relations.skip && !cfg.relation_tags.skip,
        relation_info: !cfg.relations.skip && !cfg.relation_info.skip,
        relation_members: !cfg.relations.skip && !cfg.relation_members.skip,
    }
}

} // verus!
