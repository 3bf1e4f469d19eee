//! The schema-aware row router: consults the configuration once, then
//! dispatches each primitive group to the dense, plain and member projectors
//! in the fixed order nodes, ways, relations, keeping only rows of active
//! tables. Also projects the header block to flat key/value rows.

use vstd::prelude::*;
use crate::config::{spec_active, active_tables, ActiveTables, Config};
use crate::error::DecodeError;
use crate::model::{HeaderBlock, PrimitiveBlock, PrimitiveGroup};
use crate::project::{
    dense_info_rows, dense_node_rows, dense_tag_rows, infos_for, plain_node_rows, relation_member_rows,
    relation_rows, spec_dense_info_rows, spec_dense_node_rows, spec_dense_tag_rows,
    spec_plain_info_rows, spec_plain_node_rows, spec_plain_tag_rows, spec_relation_member_rows,
    spec_relation_rows, spec_way_ref_rows, spec_way_rows, tags_for, way_ref_rows, way_rows,
};
use crate::rows::{
    rows_model, HeaderRow, HeaderRowModel, HeaderValue, HeaderValueModel, InfoModel, InfoRow,
    MemberModel, MemberRow, NodeRow, RelationRow, TagModel, TagRow, WayRefRow, WayRow,
};
use crate::tags::skip_keys_model;

verus! {

/// All rows one primitive block contributes, grouped by table.
#[derive(Debug)]
pub struct BlockRows {
    pub nodes: Vec<NodeRow>,
    pub node_tags: Vec<TagRow>,
    pub node_info: Vec<InfoRow>,
    pub ways: Vec<WayRow>,
    pub way_tags: Vec<TagRow>,
    pub way_info: Vec<InfoRow>,
    pub way_refs: Vec<WayRefRow>,
    pub relations: Vec<RelationRow>,
    pub relation_tags: Vec<TagRow>,
    pub relation_info: Vec<InfoRow>,
    pub relation_members: Vec<MemberRow>,
}

/// The mathematical view of a block's rows.
#[verifier::ext_equal]
pub ghost struct BlockRowsModel {
    pub nodes: Seq<NodeRow>,
    pub node_tags: Seq<TagModel>,
    pub node_info: Seq<InfoModel>,
    pub ways: Seq<WayRow>,
    pub way_tags: Seq<TagModel>,
    pub way_info: Seq<InfoModel>,
    pub way_refs: Seq<WayRefRow>,
    pub relations: Seq<RelationRow>,
    pub relation_tags: Seq<TagModel>,
    pub relation_info: Seq<InfoModel>,
    pub relation_members: Seq<MemberModel>,
}

impl View for BlockRows {
    type V = BlockRowsModel;

    open spec fn view(&self) -> BlockRowsModel {
        BlockRowsModel {
            nodes: self.nodes@,
            node_tags: rows_model(self.node_tags@),
            node_info: rows_model(self.node_info@),
            ways: self.ways@,
            way_tags: rows_model(self.way_tags@),
            way_info: rows_model(self.way_info@),
            way_refs: self.way_refs@,
            relations: self.relations@,
            relation_tags: rows_model(self.relation_tags@),
            relation_info: rows_model(self.relation_info@),
            relation_members: rows_model(self.relation_members@),
        }
    }
}

/// No rows at all.
pub open spec fn brm_empty() -> BlockRowsModel {
    BlockRowsModel {
        nodes: Seq::empty(),
        node_tags: Seq::empty(),
        node_info: Seq::empty(),
        ways: Seq::empty(),
        way_tags: Seq::empty(),
        way_info: Seq::empty(),
        way_refs: Seq::empty(),
        relations: Seq::empty(),
        relation_tags: Seq::empty(),
        relation_info: Seq::empty(),
        relation_members: Seq::empty(),
    }
}

/// Table-wise concatenation, preserving row order.
pub open spec fn brm_concat(a: BlockRowsModel, b: BlockRowsModel) -> BlockRowsModel {
    BlockRowsModel {
        nodes: a.nodes + b.nodes,
        node_tags: a.node_tags + b.node_tags,
        node_info: a.node_info + b.node_info,
        ways: a.ways + b.ways,
        way_tags: a.way_tags + b.way_tags,
        way_info: a.way_info + b.way_info,
        way_refs: a.way_refs + b.way_refs,
        relations: a.relations + b.relations,
        relation_tags: a.relation_tags + b.relation_tags,
        relation_info: a.relation_info + b.relation_info,
        relation_members: a.relation_members + b.relation_members,
    }
}

impl BlockRows {
    /// A row set with no rows.
    pub fn empty() -> (r: BlockRows)
        ensures
            r@ =~= brm_empty(),
    {
        let r = BlockRows {
            nodes: Vec::new(),
            node_tags: Vec::new(),
            node_info: Vec::new(),
            ways: Vec::new(),
            way_tags: Vec::new(),
            way_info: Vec::new(),
            way_refs: Vec::new(),
            relations: Vec::new(),
            relation_tags: Vec::new(),
            relation_info: Vec::new(),
            relation_members: Vec::new(),
        };
        assert(rows_model(r.node_tags@) =~= Seq::<TagModel>::empty());
        assert(rows_model(r.node_info@) =~= Seq::<InfoModel>::empty());
        assert(rows_model(r.way_tags@) =~= Seq::<TagModel>::empty());
        assert(rows_model(r.way_info@) =~= Seq::<InfoModel>::empty());
        assert(rows_model(r.relation_tags@) =~= Seq::<TagModel>::empty());
        assert(rows_model(r.relation_info@) =~= Seq::<InfoModel>::empty());
        assert(rows_model(r.relation_members@) =~= Seq::<MemberModel>::empty());
        r
    }
}

/// The node rows, node info rows and node tag rows of one group: from the
/// dense block when present, else from the plain node array; nothing when
/// the nodes table is inactive.
pub open spec fn spec_group_nodes(
    g: PrimitiveGroup,
    blk: PrimitiveBlock,
    act: ActiveTables,
    skip: Seq<Seq<char>>,
) -> Result<(Seq<NodeRow>, Seq<InfoModel>, Seq<TagModel>), DecodeError> {
    let st = blk.stringtable.model();
    let gran = blk.spec_granularity();
    let lat_off = blk.spec_lat_offset();
    let lon_off = blk.spec_lon_offset();
    let dg = blk.spec_date_granularity();
    if !act.nodes {
        Ok((Seq::empty(), Seq::empty(), Seq::empty()))
    } else {
        match g.dense {
            Some(d) => if d.lat@.len() != d.id@.len() || d.lon@.len() != d.id@.len() {
                Err(DecodeError::LengthMismatch)
            } else {
                let rows = spec_dense_node_rows(d, gran, lat_off, lon_off);
                let infos = if act.node_info {
                    spec_dense_info_rows(d, st, dg)
                } else {
                    Ok(Seq::empty())
                };
                match infos {
                    Err(e) => Err(e),
                    Ok(infos) => {
                        let tags = if act.node_tags {
                            spec_dense_tag_rows(d, st, skip)
                        } else {
                            Ok(Seq::empty())
                        };
                        match tags {
                            Err(e) => Err(e),
                            Ok(tags) => Ok((rows, infos, tags)),
                        }
                    },
                }
            },
            None => {
                let rows = spec_plain_node_rows(g.nodes@, gran, lat_off, lon_off);
                let infos = if act.node_info {
                    spec_plain_info_rows(g.nodes@, st, dg)
                } else {
                    Ok(Seq::empty())
                };
                match infos {
                    Err(e) => Err(e),
                    Ok(infos) => {
                        let tags = if act.node_tags {
                            spec_plain_tag_rows(g.nodes@, st, skip)
                        } else {
                            Ok(Seq::empty())
                        };
                        match tags {
                            Err(e) => Err(e),
                            Ok(tags) => Ok((rows, infos, tags)),
                        }
                    },
                }
            },
        }
    }
}

/// The way rows, way tag rows, way info rows and way reference rows of one
/// group; nothing when the ways table is inactive.
pub open spec fn spec_group_ways(
    g: PrimitiveGroup,
    blk: PrimitiveBlock,
    act: ActiveTables,
    skip: Seq<Seq<char>>,
) -> Result<(Seq<WayRow>, Seq<TagModel>, Seq<InfoModel>, Seq<WayRefRow>), DecodeError> {
    let st = blk.stringtable.model();
    let dg = blk.spec_date_granularity();
    if !act.ways {
        Ok((Seq::empty(), Seq::empty(), Seq::empty(), Seq::empty()))
    } else {
        let rows = spec_way_rows(g.ways@);
        let tags = if act.way_tags {
            spec_plain_tag_rows(g.ways@, st, skip)
        } else {
            Ok(Seq::empty())
        };
        match tags {
            Err(e) => Err(e),
            Ok(tags) => {
                let infos = if act.way_info {
                    spec_plain_info_rows(g.ways@, st, dg)
                } else {
                    Ok(Seq::empty())
                };
                match infos {
                    Err(e) => Err(e),
                    Ok(infos) => {
                        let refs = if act.way_refs {
                            spec_way_ref_rows(g.ways@)
                        } else {
                            Seq::empty()
                        };
                        Ok((rows, tags, infos, refs))
                    },
                }
            },
        }
    }
}

/// The relation rows, relation tag rows, relation info rows and membership
/// rows of one group; nothing when the relations table is inactive.
pub open spec fn spec_group_relations(
    g: PrimitiveGroup,
    blk: PrimitiveBlock,
    act: ActiveTables,
    skip: Seq<Seq<char>>,
) -> Result<(Seq<RelationRow>, Seq<TagModel>, Seq<InfoModel>, Seq<MemberModel>), DecodeError> {
    let st = blk.stringtable.model();
    let dg = blk.spec_date_granularity();
    if !act.relations {
        Ok((Seq::empty(), Seq::empty(), Seq::empty(), Seq::empty()))
    } else {
        let rows = spec_relation_rows(g.relations@);
        let tags = if act.relation_tags {
            spec_plain_tag_rows(g.relations@, st, skip)
        } else {
            Ok(Seq::empty())
        };
        match tags {
            Err(e) => Err(e),
            Ok(tags) => {
                let infos = if act.relation_info {
                    spec_plain_info_rows(g.relations@, st, dg)
                } else {
                    Ok(Seq::empty())
                };
                match infos {
                    Err(e) => Err(e),
                    Ok(infos) => {
                        let members = if act.relation_members {
                            spec_relation_member_rows(g.relations@, st)
                        } else {
                            Ok(Seq::empty())
                        };
                        match members {
                            Err(e) => Err(e),
                            Ok(members) => Ok((rows, tags, infos, members)),
                        }
                    },
                }
            },
        }
    }
}

/// The rows of one primitive group under the given active-table set and
/// exclusion set. Within the group, nodes come first (dense before plain,
/// never both), then ways, then relations; an inactive table gets no rows
/// and its projections do not run.
pub open spec fn spec_group_rows(
    g: PrimitiveGroup,
    blk: PrimitiveBlock,
    act: ActiveTables,
    skip: Seq<Seq<char>>,
) -> Result<BlockRowsModel, DecodeError> {
    match spec_group_nodes(g, blk, act, skip) {
        Err(e) => Err(e),
        Ok((node_rows, node_infos, node_tags)) => match spec_group_ways(g, blk, act, skip) {
            Err(e) => Err(e),
            Ok((way_rows_s, way_tags, way_infos, way_refs)) => match spec_group_relations(
                g,
                blk,
                act,
                skip,
            ) {
                Err(e) => Err(e),
                Ok((rel_rows, rel_tags, rel_infos, rel_members)) => Ok(
                    BlockRowsModel {
                        nodes: node_rows,
                        node_tags: node_tags,
                        node_info: node_infos,
                        ways: way_rows_s,
                        way_tags: way_tags,
                        way_info: way_infos,
                        way_refs: way_refs,
                        relations: rel_rows,
                        relation_tags: rel_tags,
                        relation_info: rel_infos,
                        relation_members: rel_members,
                    },
                ),
            },
        },
    }
}

/// The rows of the first `k` groups of a block, concatenated table-wise.
pub open spec fn spec_block_rows_upto(
    b: PrimitiveBlock,
    act: ActiveTables,
    skip: Seq<Seq<char>>,
    k: int,
) -> Result<BlockRowsModel, DecodeError>
    decreases k,
{
    if k <= 0 {
        Ok(brm_empty())
    } else {
        match spec_block_rows_upto(b, act, skip, k - 1) {
            Err(e) => Err(e),
            Ok(acc) => match spec_group_rows(b.primitivegroup@[k - 1], b, act, skip) {
                Err(e) => Err(e),
                Ok(gr) => Ok(brm_concat(acc, gr)),
            },
        }
    }
}

/// All rows of one primitive block under a configuration: its groups in
/// order, each projected under the configuration's active-table set and
/// tag-key exclusion set.
pub open spec fn spec_block_rows(b: PrimitiveBlock, cfg: Config) -> Result<
    BlockRowsModel,
    DecodeError,
> {
    spec_block_rows_upto(
        b,
        spec_active(cfg),
        skip_keys_model(cfg.skip_tag_keys@),
        b.primitivegroup@.len() as int,
    )
}

proof fn lemma_block_upto_err_extends(
    b: PrimitiveBlock,
    act: ActiveTables,
    skip: Seq<Seq<char>>,
    k: int,
    n: int,
)
    requires
        0 <= k <= n,
        spec_block_rows_upto(b, act, skip, k) is Err,
    ensures
        spec_block_rows_upto(b, act, skip, n) == spec_block_rows_upto(b, act, skip, k),
    decreases n - k,
{
    if k < n {
        lemma_block_upto_err_extends(b, act, skip, k, n - 1);
    }
}

fn project_group_nodes(
    g: &PrimitiveGroup,
    blk: &PrimitiveBlock,
    act: ActiveTables,
    skip: &Vec<String>,
) -> (r: Result<(Vec<NodeRow>, Vec<InfoRow>, Vec<TagRow>), DecodeError>)
    ensures
        ({
            let s = spec_group_nodes(*g, *blk, act, skip_keys_model(skip@));
            match r {
                Ok(out) => s == Ok::<_, DecodeError>(
                    (out.0@, rows_model(out.1@), rows_model(out.2@)),
                ),
                Err(e) => s == Err::<(Seq<NodeRow>, Seq<InfoModel>, Seq<TagModel>), DecodeError>(e),
            }
        }),
{
    let table = &blk.stringtable;
    let gran = blk.eff_granularity();
    let lat_off = blk.eff_lat_offset();
    let lon_off = blk.eff_lon_offset();
    let dg = blk.eff_date_granularity();
    let mut nodes: Vec<NodeRow> = Vec::new();
    let mut infos: Vec<InfoRow> = Vec::new();
    let mut tag_rows: Vec<TagRow> = Vec::new();
    assert(rows_model(infos@) =~= Seq::<InfoModel>::empty());
    assert(rows_model(tag_rows@) =~= Seq::<TagModel>::empty());
    if act.nodes {
        match &g.dense {
            Some(d) => {
                if d.lat.len() != d.id.len() || d.lon.len() != d.id.len() {
                    return Err(DecodeError::LengthMismatch);
                }
                nodes = dense_node_rows(d, gran, lat_off, lon_off);
                if act.node_info {
                    match &d.denseinfo {
                        Some(di) => {
                            infos = match dense_info_rows(&d.id, di, table, dg) {
                                Ok(rows) => rows,
                                Err(e) => {
                                    return Err(e);
                                },
                            };
                        },
                        None => {},
                    }
                }
                if act.node_tags {
                    tag_rows = match dense_tag_rows(d, table, skip) {
                        Ok(rows) => rows,
                        Err(e) => {
                            return Err(e);
                        },
                    };
                }
            },
            None => {
                nodes = plain_node_rows(&g.nodes, gran, lat_off, lon_off);
                if act.node_info {
                    infos = match infos_for(&g.nodes, table, dg) {
                        Ok(rows) => rows,
                        Err(e) => {
                            return Err(e);
                        },
                    };
                }
                if act.node_tags {
                    tag_rows = match tags_for(&g.nodes, table, skip) {
                        Ok(rows) => rows,
                        Err(e) => {
                            return Err(e);
                        },
                    };
                }
            },
        }
    }
    Ok((nodes, infos, tag_rows))
}

fn project_group_ways(
    g: &PrimitiveGroup,
    blk: &PrimitiveBlock,
    act: ActiveTables,
    skip: &Vec<String>,
) -> (r: Result<(Vec<WayRow>, Vec<TagRow>, Vec<InfoRow>, Vec<WayRefRow>), DecodeError>)
    ensures
        ({
            let s = spec_group_ways(*g, *blk, act, skip_keys_model(skip@));
            match r {
                Ok(out) => s == Ok::<_, DecodeError>(
                    (out.0@, rows_model(out.1@), rows_model(out.2@), out.3@),
                ),
                Err(e) => s == Err::<
                    (Seq<WayRow>, Seq<TagModel>, Seq<InfoModel>, Seq<WayRefRow>),
                    DecodeError,
                >(e),
            }
        }),
{
    let table = &blk.stringtable;
    let dg = blk.eff_date_granularity();
    let mut rows: Vec<WayRow> = Vec::new();
    let mut tag_rows: Vec<TagRow> = Vec::new();
    let mut infos: Vec<InfoRow> = Vec::new();
    let mut refs: Vec<WayRefRow> = Vec::new();
    assert(rows_model(infos@) =~= Seq::<InfoModel>::empty());
    assert(rows_model(tag_rows@) =~= Seq::<TagModel>::empty());
    if act.ways {
        rows = way_rows(&g.ways);
        if act.way_tags {
            tag_rows = match tags_for(&g.ways, table, skip) {
                Ok(rows) => rows,
                Err(e) => {
                    return Err(e);
                },
            };
        }
        if act.way_info {
            infos = match infos_for(&g.ways, table, dg) {
                Ok(rows) => rows,
                Err(e) => {
                    return Err(e);
                },
            };
        }
        if act.way_refs {
            refs = way_ref_rows(&g.ways);
        }
    }
    Ok((rows, tag_rows, infos, refs))
}

fn project_group_relations(
    g: &PrimitiveGroup,
    blk: &PrimitiveBlock,
    act: ActiveTables,
    skip: &Vec<String>,
) -> (r: Result<(Vec<RelationRow>, Vec<TagRow>, Vec<InfoRow>, Vec<MemberRow>), DecodeError>)
    ensures
        ({
            let s = spec_group_relations(*g, *blk, act, skip_keys_model(skip@));
            match r {
                Ok(out) => s == Ok::<_, DecodeError>(
                    (out.0@, rows_model(out.1@), rows_model(out.2@), rows_model(out.3@)),
                ),
                Err(e) => s == Err::<
                    (Seq<RelationRow>, Seq<TagModel>, Seq<InfoModel>, Seq<MemberModel>),
                    DecodeError,
                >(e),
            }
        }),
{
    let table = &blk.stringtable;
    let dg = blk.eff_date_granularity();
    let mut rows: Vec<RelationRow> = Vec::new();
    let mut tag_rows: Vec<TagRow> = Vec::new();
    let mut infos: Vec<InfoRow> = Vec::new();
    let mut members: Vec<MemberRow> = Vec::new();
    assert(rows_model(infos@) =~= Seq::<InfoModel>::empty());
    assert(rows_model(tag_rows@) =~= Seq::<TagModel>::empty());
    assert(rows_model(members@) =~= Seq::<MemberModel>::empty());
    if act.relations {
        rows = relation_rows(&g.relations);
        if act.relation_tags {
            tag_rows = match tags_for(&g.relations, table, skip) {
                Ok(rows) => rows,
                Err(e) => {
                    return Err(e);
                },
            };
        }
        if act.relation_info {
            infos = match infos_for(&g.relations, table, dg) {
                Ok(rows) => rows,
                Err(e) => {
                    return Err(e);
                },
            };
        }
        if act.relation_members {
            members = match relation_member_rows(&g.relations, table) {
                Ok(rows) => rows,
                Err(e) => {
                    return Err(e);
                },
            };
        }
    }
    Ok((rows, tag_rows, infos, members))
}

fn project_group(
    g: &PrimitiveGroup,
    blk: &PrimitiveBlock,
    act: ActiveTables,
    skip: &Vec<String>,
) -> (r: Result<BlockRows, DecodeError>)
    ensures
        ({
            let s = spec_group_rows(*g, *blk, act, skip_keys_model(skip@));
            match r {
                Ok(out) => s == Ok::<BlockRowsModel, DecodeError>(out@),
                Err(e) => s == Err::<BlockRowsModel, DecodeError>(e),
            }
        }),
{
    let (nodes, node_info, node_tags) = match project_group_nodes(g, blk, act, skip) {
        Ok(t) => t,
        Err(e) => {
            return Err(e);
        },
    };
    let (ways, way_tags, way_info, way_refs) = match project_group_ways(g, blk, act, skip) {
        Ok(t) => t,
        Err(e) => {
            return Err(e);
        },
    };
    let (relations, relation_tags, relation_info, relation_members) = match project_group_relations(
        g,
        blk,
        act,
        skip,
    ) {
        Ok(t) => t,
        Err(e) => {
            return Err(e);
        },
    };
    let out = BlockRows {
        nodes,
        node_tags,
        node_info,
        ways,
        way_tags,
        way_info,
        way_refs,
        relations,
        relation_tags,
        relation_info,
        relation_members,
    };
    proof {
        assert(spec_group_rows(*g, *blk, act, skip_keys_model(skip@)) matches Ok(m) ==> m =~= out@);
    }
    Ok(out)
}

/// Projects every group of one primitive block, in order, under the
/// configuration. The first fatal decode error aborts the block.
pub fn project_primitive_block(b: &PrimitiveBlock, cfg: &Config) -> (r: Result<
    BlockRows,
    DecodeError,
>)
    ensures
        ({
            let s = spec_block_rows(*b, *cfg);
            match r {
                Ok(out) => s == Ok::<BlockRowsModel, DecodeError>(out@),
                Err(e) => s == Err::<BlockRowsModel, DecodeError>(e),
            }
        }),
{
    let act = active_tables(cfg);
    let skip = &cfg.skip_tag_keys;
    let ghost skip_m = skip_keys_model(cfg.skip_tag_keys@);
    let mut out = BlockRows::empty();
    let mut i: usize = 0;
    while i < b.primitivegroup.len()
        invariant
            i <= b.primitivegroup@.len(),
            act == spec_active(*cfg),
            skip == &cfg.skip_tag_keys,
            skip_m == skip_keys_model(cfg.skip_tag_keys@),
            spec_block_rows_upto(*b, act, skip_m, i as int) == Ok::<BlockRowsModel, DecodeError>(
                out@,
            ),
        decreases b.primitivegroup@.len() - i,
    {
        let group_rows = match project_group(&b.primitivegroup[i], b, act, skip) {
            Ok(g) => g,
            Err(e) => {
                proof {
                    assert(spec_block_rows_upto(*b, act, skip_m, i as int + 1) == Err::<
                        BlockRowsModel,
                        DecodeError,
                    >(e));
                    lemma_block_upto_err_extends(
                        *b,
                        act,
                        skip_m,
                        i as int + 1,
                        b.primitivegroup@.len() as int,
                    );
                }
                return Err(e);
            },
        };
        let ghost old_out = out@;
        let ghost g_m = group_rows@;
        let mut group_rows = group_rows;
        out.nodes.append(&mut group_rows.nodes);
        out.node_tags.append(&mut group_rows.node_tags);
        out.node_info.append(&mut group_rows.node_info);
        out.ways.append(&mut group_rows.ways);
        out.way_tags.append(&mut group_rows.way_tags);
        out.way_info.append(&mut group_rows.way_info);
        out.way_refs.append(&mut group_rows.way_refs);
        out.relations.append(&mut group_rows.relations);
        out.relation_tags.append(&mut group_rows.relation_tags);
        out.relation_info.append(&mut group_rows.relation_info);
        out.relation_members.append(&mut group_rows.relation_members);
        proof {
            assert(out@ =~= brm_concat(old_out, g_m));
        }
        i += 1;
    }
    Ok(out)
}

/// The key/value rows of the header block, in a fixed order: the bounding
/// box when present, then every required feature, every optional feature,
/// and each optional metadata field that is present.
pub open spec fn spec_header_rows(h: HeaderBlock) -> Seq<HeaderRowModel> {
    (match h.bbox {
        Some(bb) => seq![
            HeaderRowModel { key: "bbox_left"@, value: HeaderValueModel::Int(bb.left) },
            HeaderRowModel { key: "bbox_right"@, value: HeaderValueModel::Int(bb.right) },
            HeaderRowModel { key: "bbox_top"@, value: HeaderValueModel::Int(bb.top) },
            HeaderRowModel { key: "bbox_bottom"@, value: HeaderValueModel::Int(bb.bottom) },
        ],
        None => Seq::empty(),
    }) + h.required_features@.map_values(
        |s: String| HeaderRowModel { key: "required_feature"@, value: HeaderValueModel::Text(s@) },
    ) + h.optional_features@.map_values(
        |s: String| HeaderRowModel { key: "optional_feature"@, value: HeaderValueModel::Text(s@) },
    ) + (match h.writingprogram {
        Some(w) => seq![
            HeaderRowModel { key: "writing_program"@, value: HeaderValueModel::Text(w@) },
        ],
        None => Seq::empty(),
    }) + (match h.source {
        Some(s) => seq![HeaderRowModel { key: "source"@, value: HeaderValueModel::Text(s@) }],
        None => Seq::empty(),
    }) + (match h.osmosis_replication_timestamp {
        Some(t) => seq![
            HeaderRowModel {
                key: "osmosis_replication_timestamp"@,
                value: HeaderValueModel::Int(t),
            },
        ],
        None => Seq::empty(),
    }) + (match h.osmosis_replication_sequence_number {
        Some(n) => seq![
            HeaderRowModel {
                key: "osmosis_replication_sequence_number"@,
                value: HeaderValueModel::Int(n),
            },
        ],
        None => Seq::empty(),
    }) + (match h.osmosis_replication_base_url {
        Some(u) => seq![
            HeaderRowModel {
                key: "osmosis_replication_base_url"@,
                value: HeaderValueModel::Text(u@),
            },
        ],
        None => Seq::empty(),
    })
}

/// Projects the header block to flat key/value rows.
#[verifier::rlimit(100)]
#[verifier::spinoff_prover]
pub fn project_header_block(h: &HeaderBlock) -> (r: Vec<HeaderRow>)
    ensures
        rows_model(r@) == spec_header_rows(*h),
{
    let mut out: Vec<HeaderRow> = Vec::new();
    match &h.bbox {
        Some(bb) => {
            out.push(HeaderRow { key: "bbox_left".to_owned(), value: HeaderValue::Int(bb.left) });
            out.push(HeaderRow { key: "bbox_right".to_owned(), value: HeaderValue::Int(bb.right) });
            out.push(HeaderRow { key: "bbox_top".to_owned(), value: HeaderValue::Int(bb.top) });
            out.push(
                HeaderRow { key: "bbox_bottom".to_owned(), value: HeaderValue::Int(bb.bottom) },
            );
        },
        None => {},
    }
    let ghost bbox_rows = rows_model(out@);
    let ghost req_map = h.required_features@.map_values(
        |s: String| HeaderRowModel { key: "required_feature"@, value: HeaderValueModel::Text(s@) },
    );
    let mut i: usize = 0;
    while i < h.required_features.len()
        invariant
            i <= h.required_features@.len(),
            req_map == h.required_features@.map_values(
                |s: String|
                    HeaderRowModel {
                        key: "required_feature"@,
                        value: HeaderValueModel::Text(s@),
                    },
            ),
            rows_model(out@) == bbox_rows + req_map.take(i as int),
        decreases h.required_features@.len() - i,
    {
        let ghost prev = out@;
        let feature = h.required_features[i].clone();
        out.push(HeaderRow { key: "required_feature".to_owned(), value: HeaderValue::Text(feature) });
        proof {
            let lhs = rows_model(out@);
            let rhs = bbox_rows + req_map.take(i as int + 1);
            assert(req_map.len() == h.required_features@.len());
            assert(rows_model(prev) == bbox_rows + req_map.take(i as int));
            assert(rows_model(prev).len() == prev.len());
            assert(prev.len() == bbox_rows.len() + i as int);
            assert(out@.len() == prev.len() + 1);
            assert(lhs.len() == out@.len());
            assert(lhs.len() == rhs.len());
            assert forall|k: int| 0 <= k < lhs.len() implies lhs[k] == rhs[k] by {
                assert(lhs[k] == out@[k]@);
                if k < prev.len() {
                    assert(out@[k] == prev[k]);
                    assert(rows_model(prev)[k] == prev[k]@);
                    assert(rows_model(prev)[k] == (bbox_rows + req_map.take(i as int))[k]);
                } else {
                    assert(out@[k] == out@.last());
                    assert(out@.last()@ == req_map[i as int]);
                }
            }
        }
        assert(rows_model(out@) =~= bbox_rows + req_map.take(i as int + 1));
        i += 1;
    }
    assert(req_map.take(h.required_features@.len() as int) =~= req_map);
    let ghost upto_req = rows_model(out@);
    let ghost opt_map = h.optional_features@.map_values(
        |s: String| HeaderRowModel { key: "optional_feature"@, value: HeaderValueModel::Text(s@) },
    );
    let mut i: usize = 0;
    while i < h.optional_features.len()
        invariant
            i <= h.optional_features@.len(),
            opt_map == h.optional_features@.map_values(
                |s: String|
                    HeaderRowModel {
                        key: "optional_feature"@,
                        value: HeaderValueModel::Text(s@),
                    },
            ),
            rows_model(out@) == upto_req + opt_map.take(i as int),
        decreases h.optional_features@.len() - i,
    {
        let ghost prev = out@;
        let feature = h.optional_features[i].clone();
        out.push(HeaderRow { key: "optional_feature".to_owned(), value: HeaderValue::Text(feature) });
        proof {
            let lhs = rows_model(out@);
            let rhs = upto_req + opt_map.take(i as int + 1);
            assert(opt_map.len() == h.optional_features@.len());
            assert(rows_model(prev) == upto_req + opt_map.take(i as int));
            assert(rows_model(prev).len() == prev.len());
            assert(prev.len() == upto_req.len() + i as int);
            assert(out@.len() == prev.len() + 1);
            assert(lhs.len() == out@.len());
            assert(lhs.len() == rhs.len());
            assert forall|k: int| 0 <= k < lhs.len() implies lhs[k] == rhs[k] by {
                assert(lhs[k] == out@[k]@);
                if k < prev.len() {
                    assert(out@[k] == prev[k]);
                    assert(rows_model(prev)[k] == prev[k]@);
                } else {
                    assert(out@[k] == out@.last());
                    assert(out@.last()@ == opt_map[i as int]);
                }
            }
            assert(lhs =~= rhs);
        }
        i += 1;
    }
    assert(opt_map.take(h.optional_features@.len() as int) =~= opt_map);
    let ghost base0 = rows_model(out@);
    let ghost piece1 = if h.writingprogram is Some {
        seq![HeaderRowModel { key: "writing_program"@, value: HeaderValueModel::Text(h.writingprogram->0@) }]
    } else {
        Seq::<HeaderRowModel>::empty()
    };
    match &h.writingprogram {
        Some(w) => {
            let ghost prev = out@;
            out.push(
                HeaderRow { key: "writing_program".to_owned(), value: HeaderValue::Text(w.clone()) },
            );
            assert(rows_model(out@) =~= rows_model(prev) + piece1);
        },
        None => {
            assert(rows_model(out@) =~= base0 + piece1);
        },
    }
    let ghost base1 = rows_model(out@);
    assert(base1 == base0 + piece1);
    let ghost piece2 = if h.source is Some {
        seq![HeaderRowModel { key: "source"@, value: HeaderValueModel::Text(h.source->0@) }]
    } else {
        Seq::<HeaderRowModel>::empty()
    };
    match &h.source {
        Some(s) => {
            let ghost prev = out@;
            out.push(HeaderRow { key: "source".to_owned(), value: HeaderValue::Text(s.clone()) });
            assert(rows_model(out@) =~= rows_model(prev) + piece2);
        },
        None => {
            assert(rows_model(out@) =~= base1 + piece2);
        },
    }
    let ghost base2 = rows_model(out@);
    assert(base2 == base1 + piece2);
    let ghost piece3 = match h.osmosis_replication_timestamp {
        Some(t) => seq![
            HeaderRowModel { key: "osmosis_replication_timestamp"@, value: HeaderValueModel::Int(t) },
        ],
        None => Seq::<HeaderRowModel>::empty(),
    };
    match &h.osmosis_replication_timestamp {
        Some(t) => {
            let ghost prev = out@;
            out.push(
                HeaderRow {
                    key: "osmosis_replication_timestamp".to_owned(),
                    value: HeaderValue::Int(*t),
                },
            );
            assert(rows_model(out@) =~= rows_model(prev) + piece3);
        },
        None => {
            assert(rows_model(out@) =~= base2 + piece3);
        },
    }
    let ghost base3 = rows_model(out@);
    assert(base3 == base2 + piece3);
    let ghost piece4 = match h.osmosis_replication_sequence_number {
        Some(n) => seq![
            HeaderRowModel {
                key: "osmosis_replication_sequence_number"@,
                value: HeaderValueModel::Int(n),
            },
        ],
        None => Seq::<HeaderRowModel>::empty(),
    };
    match &h.osmosis_replication_sequence_number {
        Some(n) => {
            let ghost prev = out@;
            out.push(
                HeaderRow {
                    key: "osmosis_replication_sequence_number".to_owned(),
                    value: HeaderValue::Int(*n),
                },
            );
            assert(rows_model(out@) =~= rows_model(prev) + piece4);
        },
        None => {
            assert(rows_model(out@) =~= base3 + piece4);
        },
    }
    let ghost base4 = rows_model(out@);
    assert(base4 == base3 + piece4);
    let ghost piece5 = if h.osmosis_replication_base_url is Some {
        seq![
            HeaderRowModel {
                key: "osmosis_replication_base_url"@,
                value: HeaderValueModel::Text(h.osmosis_replication_base_url->0@),
            },
        ]
    } else {
        Seq::<HeaderRowModel>::empty()
    };
    match &h.osmosis_replication_base_url {
        Some(u) => {
            let ghost prev = out@;
            out.push(
                HeaderRow {
                    key: "osmosis_replication_base_url".to_owned(),
                    value: HeaderValue::Text(u.clone()),
                },
            );
            assert(rows_model(out@) =~= rows_model(prev) + piece5);
        },
        None => {
            assert(rows_model(out@) =~= base4 + piece5);
        },
    }
    proof {
        assert(rows_model(out@) == base4 + piece5);
        assert(base0 == bbox_rows + req_map + opt_map) by {
            assert(req_map.take(h.required_features@.len() as int) =~= req_map);
        }
        assert(bbox_rows == (match h.bbox {
            Some(bb) => seq![
                HeaderRowModel { key: "bbox_left"@, value: HeaderValueModel::Int(bb.left) },
                HeaderRowModel { key: "bbox_right"@, value: HeaderValueModel::Int(bb.right) },
                HeaderRowModel { key: "bbox_top"@, value: HeaderValueModel::Int(bb.top) },
                HeaderRowModel { key: "bbox_bottom"@, value: HeaderValueModel::Int(bb.bottom) },
            ],
            None => Seq::<HeaderRowModel>::empty(),
        }));
        assert(rows_model(out@) =~= spec_header_rows(*h));
    }
    out
}

proof fn lemma_group_rows_inactive(
    g: PrimitiveGroup,
    blk: PrimitiveBlock,
    act: ActiveTables,
    skip: Seq<Seq<char>>,
)
    requires
        spec_group_rows(g, blk, act, skip) is Ok,
    ensures
        !act.nodes ==> {
            let m = spec_group_rows(g, blk, act, skip)->Ok_0;
            m.nodes.len() == 0 && m.node_tags.len() == 0 && m.node_info.len() == 0
        },
        !act.ways ==> {
            let m = spec_group_rows(g, blk, act, skip)->Ok_0;
            m.ways.len() == 0 && m.way_tags.len() == 0 && m.way_info.len() == 0 && m.way_refs.len()
                == 0
        },
        !act.relations ==> {
            let m = spec_group_rows(g, blk, act, skip)->Ok_0;
            m.relations.len() == 0 && m.relation_tags.len() == 0 && m.relation_info.len() == 0
                && m.relation_members.len() == 0
        },
{
}

proof fn lemma_block_upto_skipped_parent(
    b: PrimitiveBlock,
    act: ActiveTables,
    skip: Seq<Seq<char>>,
    k: int,
)
    requires
        spec_block_rows_upto(b, act, skip, k) is Ok,
    ensures
        !act.nodes ==> {
            let m = spec_block_rows_upto(b, act, skip, k)->Ok_0;
            m.nodes.len() == 0 && m.node_tags.len() == 0 && m.node_info.len() == 0
        },
        !act.ways ==> {
            let m = spec_block_rows_upto(b, act, skip, k)->Ok_0;
            m.ways.len() == 0 && m.way_tags.len() == 0 && m.way_info.len() == 0 && m.way_refs.len()
                == 0
        },
        !act.relations ==> {
            let m = spec_block_rows_upto(b, act, skip, k)->Ok_0;
            m.relations.len() == 0 && m.relation_tags.len() == 0 && m.relation_info.len() == 0
                && m.relation_members.len() == 0
        },
    decreases k,
{
    if k > 0 {
        lemma_block_upto_skipped_parent(b, act, skip, k - 1);
        lemma_group_rows_inactive(b.primitivegroup@[k - 1], b, act, skip);
    }
}

/// Skipping a parent table prevents all child-table rows: with `nodes`
/// skipped no node, node-tag or node-info row is produced, even when the
/// child tables themselves are not skipped; likewise for ways and their
/// tags, info and refs, and for relations and their tags, info and members.
pub proof fn lemma_skipped_parent_no_rows(b: PrimitiveBlock, cfg: Config)
    requires
        spec_block_rows(b, cfg) is Ok,
    ensures
        cfg.nodes.skip ==> {
            let m = spec_block_rows(b, cfg)->Ok_0;
            m.nodes.len() == 0 && m.node_tags.len() == 0 && m.node_info.len() == 0
        },
        cfg.ways.skip ==> {
            let m = spec_block_rows(b, cfg)->Ok_0;
            m.ways.len() == 0 && m.way_tags.len() == 0 && m.way_info.len() == 0 && m.way_refs.len()
                == 0
        },
        cfg.relations.skip ==> {
            let m = spec_block_rows(b, cfg)->Ok_0;
            m.relations.len() == 0 && m.relation_tags.len() == 0 && m.relation_info.len() == 0
                && m.relation_members.len() == 0
        },
{
    lemma_block_upto_skipped_parent(
        b,
        spec_active(cfg),
        skip_keys_model(cfg.skip_tag_keys@),
        b.primitivegroup@.len() as int,
    );
}

} // verus!
