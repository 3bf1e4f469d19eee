//! The load orchestrator over a sequence of framed blocks: header and
//! primitive blocks are projected in order, unknown blocks are skipped, and
//! a malformed block is recoverable — block boundaries resynchronize the
//! framing. A fatal decode error inside a block content aborts the whole
//! load with no rows; on success all rows of the pass are returned and are
//! committed together.

use vstd::prelude::*;
use crate::config::{spec_active, active_tables, Config};
use crate::error::DecodeError;
use crate::model::{HeaderBlock, PrimitiveBlock};
use crate::router::{
    brm_concat, brm_empty, project_header_block, project_primitive_block, spec_block_rows,
    spec_header_rows, BlockRows, BlockRowsModel,
};
use crate::rows::{rows_model, HeaderRow, HeaderRowModel};

verus! {

/// One outcome of pulling the next block from the framing layer.
pub enum BlockOutcome {
    /// A decoded header block.
    Header(HeaderBlock),
    /// A decoded primitive block.
    Primitive(PrimitiveBlock),
    /// A block of an unrecognized kind, with its size; skipped.
    Unknown(u64),
    /// A block whose envelope could not be decoded; recoverable, skipped.
    Malformed,
}

/// All rows of one load pass.
#[derive(Debug)]
pub struct LoadRows {
    pub header: Vec<HeaderRow>,
    pub body: BlockRows,
}

/// The mathematical view of a load's rows.
#[verifier::ext_equal]
pub ghost struct LoadRowsModel {
    pub header: Seq<HeaderRowModel>,
    pub body: BlockRowsModel,
}

impl View for LoadRows {
    type V = LoadRowsModel;

    open spec fn view(&self) -> LoadRowsModel {
        LoadRowsModel { header: rows_model(self.header@), body: self.body@ }
    }
}

/// The rows of the first `k` block outcomes: header rows from header blocks
/// when the header table is active, body rows from primitive blocks, and
/// nothing from unknown or malformed blocks. The first fatal decode error
/// aborts the whole load.
pub open spec fn spec_load_upto(blocks: Seq<BlockOutcome>, cfg: Config, k: int) -> Result<
    LoadRowsModel,
    DecodeError,
>
    decreases k,
{
    if k <= 0 {
        Ok(LoadRowsModel { header: Seq::empty(), body: brm_empty() })
    } else {
        match spec_load_upto(blocks, cfg, k - 1) {
            Err(e) => Err(e),
            Ok(acc) => match blocks[k - 1] {
                BlockOutcome::Header(h) => Ok(
                    LoadRowsModel {
                        header: if spec_active(cfg).header {
                            acc.header + spec_header_rows(h)
                        } else {
                            acc.header
                        },
                        body: acc.body,
                    },
                ),
                BlockOutcome::Primitive(p) => match spec_block_rows(p, cfg) {
                    Err(e) => Err(e),
                    Ok(m) => Ok(LoadRowsModel { header: acc.header, body: brm_concat(acc.body, m) }),
                },
                BlockOutcome::Unknown(_) => Ok(acc),
                BlockOutcome::Malformed => Ok(acc),
            },
        }
    }
}

/// The rows of a whole load pass.
pub open spec fn spec_load(blocks: Seq<BlockOutcome>, cfg: Config) -> Result<
    LoadRowsModel,
    DecodeError,
> {
    spec_load_upto(blocks, cfg, blocks.len() as int)
}

proof fn lemma_load_upto_err_extends(blocks: Seq<BlockOutcome>, cfg: Config, k: int, n: int)
    requires
        0 <= k <= n,
        spec_load_upto(blocks, cfg, k) is Err,
    ensures
        spec_load_upto(blocks, cfg, n) == spec_load_upto(blocks, cfg, k),
    decreases n - k,
{
    if k < n {
        lemma_load_upto_err_extends(blocks, cfg, k, n - 1);
    }
}

/// A fatal decode error anywhere aborts the whole load: when a load
/// succeeds, every primitive block in it projected without error; so a
/// block holding a bad string-table index, bad UTF-8, a bad member type or
/// a columnar mismatch makes the whole load return the error and no rows.
pub proof fn lemma_load_ok_needs_every_block_ok(blocks: Seq<BlockOutcome>, cfg: Config, i: int)
    requires
        spec_load(blocks, cfg) is Ok,
        0 <= i < blocks.len(),
    ensures
        blocks[i] matches BlockOutcome::Primitive(p) ==> spec_block_rows(p, cfg) is Ok,
{
    lemma_load_upto_ok_needs(blocks, cfg, i, blocks.len() as int);
}

proof fn lemma_load_upto_ok_needs(blocks: Seq<BlockOutcome>, cfg: Config, i: int, k: int)
    requires
        spec_load_upto(blocks, cfg, k) is Ok,
        0 <= i < k,
    ensures
        blocks[i] matches BlockOutcome::Primitive(p) ==> spec_block_rows(p, cfg) is Ok,
    decreases k,
{
    if i < k - 1 {
        lemma_load_upto_ok_needs(blocks, cfg, i, k - 1);
    }
}

/// Runs one pass over a sequence of framed block outcomes, projecting each
/// block in order under the configuration. Returns every row of the pass,
/// or the first fatal decode error, with no rows.
pub fn load(blocks: &Vec<BlockOutcome>, cfg: &Config) -> (r: Result<LoadRows, DecodeError>)
    ensures
        ({
            let s = spec_load(blocks@, *cfg);
            match r {
                Ok(out) => s == Ok::<LoadRowsModel, DecodeError>(out@),
                Err(e) => s == Err::<LoadRowsModel, DecodeError>(e),
            }
        }),
{
    let act = active_tables(cfg);
    let mut out = LoadRows { header: Vec::new(), body: BlockRows::empty() };
    assert(rows_model(out.header@) =~= Seq::<HeaderRowModel>::empty());
    let mut i: usize = 0;
    while i < blocks.len()
        invariant
            i <= blocks@.len(),
            act == spec_active(*cfg),
            spec_load_upto(blocks@, *cfg, i as int) == Ok::<LoadRowsModel, DecodeError>(out@),
        decreases blocks@.len() - i,
    {
        match &blocks[i] {
            BlockOutcome::Header(h) => {
                if act.header {
                    let mut rows = project_header_block(h);
                    let ghost prev = rows_model(out.header@);
                    let ghost new_rows = rows_model(rows@);
                    out.header.append(&mut rows);
                    proof {
                        assert(rows_model(out.header@) =~= prev + new_rows);
                        assert(spec_load_upto(blocks@, *cfg, i as int + 1) matches Ok(m) ==> m =~=
                        out@);
                    }
                } else {
                    assert(spec_load_upto(blocks@, *cfg, i as int + 1) matches Ok(m) ==> m =~= out@);
                }
            },
            BlockOutcome::Primitive(p) => {
                match project_primitive_block(p, cfg) {
                    Ok(mut rows) => {
                        let ghost prev = out.body@;
                        let ghost new_rows = rows@;
                        out.body.nodes.append(&mut rows.nodes);
                        out.body.node_tags.append(&mut rows.node_tags);
                        out.body.node_info.append(&mut rows.node_info);
                        out.body.ways.append(&mut rows.ways);
                        out.body.way_tags.append(&mut rows.way_tags);
                        out.body.way_info.append(&mut rows.way_info);
                        out.body.way_refs.append(&mut rows.way_refs);
                        out.body.relations.append(&mut rows.relations);
                        out.body.relation_tags.append(&mut rows.relation_tags);
                        out.body.relation_info.append(&mut rows.relation_info);
                        out.body.relation_members.append(&mut rows.relation_members);
                        proof {
                            assert(out.body@ =~= brm_concat(prev, new_rows));
                            assert(spec_load_upto(blocks@, *cfg, i as int + 1) matches Ok(m) ==> m
                                =~= out@);
                        }
                    },
                    Err(e) => {
                        proof {
                            assert(spec_load_upto(blocks@, *cfg, i as int + 1) == Err::<
                                LoadRowsModel,
                                DecodeError,
                            >(e));
                            lemma_load_upto_err_extends(
                                blocks@,
                                *cfg,
                                i as int + 1,
                                blocks@.len() as int,
                            );
                        }
                        return Err(e);
                    },
                }
            },
            BlockOutcome::Unknown(_) => {},
            BlockOutcome::Malformed => {},
        }
        i += 1;
    }
    Ok(out)
}

/// What to do with the destination before a load begins.
#[derive(Clone, Copy, Debug, PartialEq, Eq, Structural)]
pub enum OutputPlan {
    /// The destination does not exist: create it fresh.
    CreateFresh,
    /// The destination exists and overwriting is requested: remove it, then
    /// create it fresh, so the result never merges with a previous load.
    ReplaceExisting,
    /// The destination exists and overwriting is not requested: fail before
    /// any decoding begins.
    RefuseExisting,
}

/// The disposition of the destination under the overwrite flag.
pub open spec fn spec_plan_output(overwrite: bool, exists: bool) -> OutputPlan {
    if !exists {
        OutputPlan::CreateFresh
    } else if overwrite {
        OutputPlan::ReplaceExisting
    } else {
        OutputPlan::RefuseExisting
    }
}

/// Decides what happens to the destination: an existing destination is
/// replaced entirely when the overwrite flag is set, and refused fatally
/// before any decoding when it is not.
pub fn plan_output(overwrite: bool, exists: bool) -> (r: OutputPlan)
    ensures
        r == spec_plan_output(overwrite, exists),
{
    if !exists {
        OutputPlan::CreateFresh
    } else if overwrite {
        OutputPlan::ReplaceExisting
    } else {
        OutputPlan::RefuseExisting
    }
}

} // verus!
