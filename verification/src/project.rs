//! Projection of decoded primitives into relational rows: dense nodes from
//! parallel columnar arrays, plain nodes, ways and relations from their own
//! records, and relation membership rows from three lock-step arrays.

use vstd::prelude::*;
use crate::delta::{delta_sum, delta_value, delta_value_i32};
use crate::error::DecodeError;
use crate::model::{DenseInfo, DenseNodes, Info, Node, Relation, Way};
use crate::normalize::{
    normalize_coord, normalize_timestamp, spec_normalize_coord, spec_normalize_timestamp,
};
use crate::results::{
    collect, collect_concat, lemma_collect_concat_err_extends, lemma_collect_err_extends,
};
use crate::rows::{
    rows_model, InfoModel, InfoRow, MemberModel, MemberRow, NodeRow, RelationRow, TagModel, TagRow,
    WayRefRow, WayRow,
};
use crate::strtab::{spec_resolve, StringTable};
use crate::tags::{
    kv_segments, pairs_of_plain, pairs_of_segment, plain_pairs, seg_pairs, skip_keys_model,
    spec_tags, split_keys_vals, tags_for_pairs,
};

verus! {

/// Any record shape that has an id and optional metadata: plain nodes, ways
/// and relations share the info projection through this interface.
pub trait OsmPrimitive: Sized {
    /// The record's id.
    spec fn spec_id(&self) -> i64;

    /// The record's metadata, when it carries any.
    spec fn spec_info(&self) -> Option<Info>;

    /// The record's tag key indices.
    spec fn spec_keys(&self) -> Seq<u32>;

    /// The record's tag value indices.
    spec fn spec_vals(&self) -> Seq<u32>;

    fn id(&self) -> (r: i64)
        ensures
            r == self.spec_id(),
    ;

    fn info(&self) -> (r: Option<&Info>)
        ensures
            match r {
                Some(i) => self.spec_info() == Some(*i),
                None => self.spec_info() is None,
            },
    ;

    fn keys(&self) -> (r: &Vec<u32>)
        ensures
            r@ == self.spec_keys(),
    ;

    fn vals(&self) -> (r: &Vec<u32>)
        ensures
            r@ == self.spec_vals(),
    ;
}

impl OsmPrimitive for Node {
    open spec fn spec_id(&self) -> i64 {
        self.id
    }

    open spec fn spec_info(&self) -> Option<Info> {
        self.info
    }

    open spec fn spec_keys(&self) -> Seq<u32> {
        self.keys@
    }

    open spec fn spec_vals(&self) -> Seq<u32> {
        self.vals@
    }

    fn id(&self) -> i64 {
        self.id
    }

    fn info(&self) -> Option<&Info> {
        self.info.as_ref()
    }

    fn keys(&self) -> &Vec<u32> {
        &self.keys
    }

    fn vals(&self) -> &Vec<u32> {
        &self.vals
    }
}

impl OsmPrimitive for Way {
    open spec fn spec_id(&self) -> i64 {
        self.id
    }

    open spec fn spec_info(&self) -> Option<Info> {
        self.info
    }

    open spec fn spec_keys(&self) -> Seq<u32> {
        self.keys@
    }

    open spec fn spec_vals(&self) -> Seq<u32> {
        self.vals@
    }

    fn id(&self) -> i64 {
        self.id
    }

    fn info(&self) -> Option<&Info> {
        self.info.as_ref()
    }

    fn keys(&self) -> &Vec<u32> {
        &self.keys
    }

    fn vals(&self) -> &Vec<u32> {
        &self.vals
    }
}

impl OsmPrimitive for Relation {
    open spec fn spec_id(&self) -> i64 {
        self.id
    }

    open spec fn spec_info(&self) -> Option<Info> {
        self.info
    }

    open spec fn spec_keys(&self) -> Seq<u32> {
        self.keys@
    }

    open spec fn spec_vals(&self) -> Seq<u32> {
        self.vals@
    }

    fn id(&self) -> i64 {
        self.id
    }

    fn info(&self) -> Option<&Info> {
        self.info.as_ref()
    }

    fn keys(&self) -> &Vec<u32> {
        &self.keys
    }

    fn vals(&self) -> &Vec<u32> {
        &self.vals
    }
}

/// The info row of one record: the timestamp normalized to epoch seconds,
/// the user name resolved from the string table when a user string id is
/// present, everything else carried over.
pub open spec fn spec_info_row(id: i64, info: Info, st: Seq<Seq<u8>>, dg: i64) -> Result<
    InfoModel,
    DecodeError,
> {
    let user = match info.user_sid {
        Some(sid) => match spec_resolve(st, sid as int) {
            Err(e) => Err(e),
            Ok(u) => Ok(Some(u)),
        },
        None => Ok(None),
    };
    match user {
        Err(e) => Err(e),
        Ok(user) => Ok(
            InfoModel {
                id: id,
                version: info.version,
                timestamp: match info.timestamp {
                    Some(ts) => Some(spec_normalize_timestamp(ts, dg)),
                    None => None,
                },
                uid: info.uid,
                user: user,
                visible: info.visible,
            },
        ),
    }
}

/// The info rows one record contributes: none when it carries no metadata.
pub open spec fn spec_opt_info_rows(
    id: i64,
    info: Option<Info>,
    st: Seq<Seq<u8>>,
    dg: i64,
) -> Result<Seq<InfoModel>, DecodeError> {
    match info {
        None => Ok(Seq::empty()),
        Some(info) => match spec_info_row(id, info, st, dg) {
            Err(e) => Err(e),
            Ok(row) => Ok(seq![row]),
        },
    }
}

/// The info rows of a whole array of plain records, in record order.
pub open spec fn spec_plain_info_rows<P: OsmPrimitive>(
    records: Seq<P>,
    st: Seq<Seq<u8>>,
    dg: i64,
) -> Result<Seq<InfoModel>, DecodeError> {
    collect_concat(
        records.len() as int,
        |i: int| spec_opt_info_rows(records[i].spec_id(), records[i].spec_info(), st, dg),
    )
}

/// Projects the info row of one record.
pub fn info_row(id: i64, info: &Info, table: &StringTable, dg: i64) -> (r: Result<
    InfoRow,
    DecodeError,
>)
    ensures
        ({
            let s = spec_info_row(id, *info, table.model(), dg);
            match r {
                Ok(row) => s == Ok::<InfoModel, DecodeError>(row@),
                Err(e) => s == Err::<InfoModel, DecodeError>(e),
            }
        }),
{
    let user = match info.user_sid {
        Some(sid) => match table.resolve(sid as i64) {
            Ok(u) => Some(u),
            Err(e) => {
                return Err(e);
            },
        },
        None => None,
    };
    let timestamp = match info.timestamp {
        Some(ts) => Some(normalize_timestamp(ts, dg)),
        None => None,
    };
    Ok(
        InfoRow {
            id,
            version: info.version,
            timestamp,
            uid: info.uid,
            user,
            visible: info.visible,
        },
    )
}

/// Projects the info rows of an array of plain records.
pub fn infos_for<P: OsmPrimitive>(records: &Vec<P>, table: &StringTable, dg: i64) -> (r: Result<
    Vec<InfoRow>,
    DecodeError,
>)
    ensures
        ({
            let s = spec_plain_info_rows(records@, table.model(), dg);
            match r {
                Ok(out) => s == Ok::<Seq<InfoModel>, DecodeError>(rows_model(out@)),
                Err(e) => s == Err::<Seq<InfoModel>, DecodeError>(e),
            }
        }),
{
    let ghost f = |i: int|
        spec_opt_info_rows(records@[i].spec_id(), records@[i].spec_info(), table.model(), dg);
    let mut out: Vec<InfoRow> = Vec::new();
    assert(rows_model(out@) =~= Seq::<InfoModel>::empty());
    let mut i: usize = 0;
    while i < records.len()
        invariant
            i <= records.len(),
            f == (|i: int|
                spec_opt_info_rows(
                    records@[i].spec_id(),
                    records@[i].spec_info(),
                    table.model(),
                    dg,
                )),
            collect_concat(i as int, f) == Ok::<Seq<InfoModel>, DecodeError>(rows_model(out@)),
        decreases records.len() - i,
    {
        let record = &records[i];
        match record.info() {
            Some(info) => {
                match info_row(record.id(), info, table, dg) {
                    Ok(row) => {
                        out.push(row);
                        assert(rows_model(out@) =~= collect_concat(i as int, f)->Ok_0 + f(
                            i as int,
                        )->Ok_0);
                    },
                    Err(e) => {
                        proof {
                            assert(collect_concat(i as int + 1, f) == Err::<
                                Seq<InfoModel>,
                                DecodeError,
                            >(e));
                            lemma_collect_concat_err_extends(i as int + 1, records@.len() as int, f);
                        }
                        return Err(e);
                    },
                }
            },
            None => {
                assert(rows_model(out@) =~= collect_concat(i as int, f)->Ok_0 + f(i as int)->Ok_0);
            },
        }
        i += 1;
    }
    Ok(out)
}

/// The primary node rows of a dense block: delta-decoded ids and normalized
/// delta-decoded coordinates, index by index.
pub open spec fn spec_dense_node_rows(
    d: DenseNodes,
    gran: i64,
    lat_off: i64,
    lon_off: i64,
) -> Seq<NodeRow> {
    Seq::new(
        d.id@.len(),
        |i: int|
            NodeRow {
                id: delta_value(d.id@, i),
                lat: spec_normalize_coord(delta_value(d.lat@, i), gran, lat_off),
                lon: spec_normalize_coord(delta_value(d.lon@, i), gran, lon_off),
            },
    )
}

/// Projects the primary rows of a dense node block.
pub fn dense_node_rows(d: &DenseNodes, gran: i64, lat_off: i64, lon_off: i64) -> (r: Vec<NodeRow>)
    requires
        d.lat@.len() == d.id@.len(),
        d.lon@.len() == d.id@.len(),
    ensures
        r@ == spec_dense_node_rows(*d, gran, lat_off, lon_off),
{
    let ghost s = spec_dense_node_rows(*d, gran, lat_off, lon_off);
    let mut out: Vec<NodeRow> = Vec::new();
    let mut id_acc: i64 = 0;
    let mut lat_acc: i64 = 0;
    let mut lon_acc: i64 = 0;
    let mut i: usize = 0;
    while i < d.id.len()
        invariant
            i <= d.id@.len(),
            d.lat@.len() == d.id@.len(),
            d.lon@.len() == d.id@.len(),
            s == spec_dense_node_rows(*d, gran, lat_off, lon_off),
            out@ == s.take(i as int),
            i > 0 ==> id_acc == delta_value(d.id@, i as int - 1),
            i > 0 ==> lat_acc == delta_value(d.lat@, i as int - 1),
            i > 0 ==> lon_acc == delta_value(d.lon@, i as int - 1),
        decreases d.id@.len() - i,
    {
        if i == 0 {
            id_acc = d.id[0];
            lat_acc = d.lat[0];
            lon_acc = d.lon[0];
        } else {
            id_acc = id_acc.wrapping_add(d.id[i]);
            lat_acc = lat_acc.wrapping_add(d.lat[i]);
            lon_acc = lon_acc.wrapping_add(d.lon[i]);
        }
        out.push(
            NodeRow {
                id: id_acc,
                lat: normalize_coord(lat_acc, gran, lat_off),
                lon: normalize_coord(lon_acc, gran, lon_off),
            },
        );
        assert(out@ =~= s.take(i as int + 1));
        i += 1;
    }
    assert(out@ =~= s);
    out
}

/// The info row of dense node `i`. Metadata columns may be shorter than the
/// node count: a missing entry means the field is absent for that node,
/// except `visible`, which defaults to true. The user string id is the
/// range-checked running sum of its delta column.
pub open spec fn spec_dense_info_row(
    ids: Seq<i64>,
    di: DenseInfo,
    st: Seq<Seq<u8>>,
    dg: i64,
    i: int,
) -> Result<InfoModel, DecodeError> {
    let user = if i < di.user_sid@.len() {
        let sid = delta_sum(di.user_sid@, i + 1);
        if sid < 0 || sid > u32::MAX as int {
            Err(DecodeError::BadStringIndex)
        } else {
            match spec_resolve(st, sid) {
                Err(e) => Err(e),
                Ok(u) => Ok(Some(u)),
            }
        }
    } else {
        Ok(None)
    };
    match user {
        Err(e) => Err(e),
        Ok(user) => Ok(
            InfoModel {
                id: delta_value(ids, i),
                version: if i < di.version@.len() {
                    Some(di.version@[i])
                } else {
                    None
                },
                timestamp: if i < di.timestamp@.len() {
                    Some(spec_normalize_timestamp(delta_value(di.timestamp@, i), dg))
                } else {
                    None
                },
                uid: if i < di.uid@.len() {
                    Some(delta_value_i32(di.uid@, i))
                } else {
                    None
                },
                user: user,
                visible: Some(
                    if i < di.visible@.len() {
                        di.visible@[i]
                    } else {
                        true
                    },
                ),
            },
        ),
    }
}

/// The info rows of a dense block: one per node when metadata is present,
/// none otherwise.
pub open spec fn spec_dense_info_rows(d: DenseNodes, st: Seq<Seq<u8>>, dg: i64) -> Result<
    Seq<InfoModel>,
    DecodeError,
> {
    match d.denseinfo {
        None => Ok(Seq::empty()),
        Some(di) => collect(
            d.id@.len() as int,
            |i: int| spec_dense_info_row(d.id@, di, st, dg, i),
        ),
    }
}

/// Projects the info rows of a dense node block from its metadata columns.
pub fn dense_info_rows(ids: &Vec<i64>, di: &DenseInfo, table: &StringTable, dg: i64) -> (r: Result<
    Vec<InfoRow>,
    DecodeError,
>)
    ensures
        ({
            let s = collect(
                ids@.len() as int,
                |i: int| spec_dense_info_row(ids@, *di, table.model(), dg, i),
            );
            match r {
                Ok(out) => s == Ok::<Seq<InfoModel>, DecodeError>(rows_model(out@)),
                Err(e) => s == Err::<Seq<InfoModel>, DecodeError>(e),
            }
        }),
{
    let ghost f = |i: int| spec_dense_info_row(ids@, *di, table.model(), dg, i);
    let mut out: Vec<InfoRow> = Vec::new();
    assert(rows_model(out@) =~= Seq::<InfoModel>::empty());
    let mut id_acc: i64 = 0;
    let mut ts_acc: i64 = 0;
    let mut uid_acc: i32 = 0;
    let mut sid_acc: u32 = 0;
    let mut i: usize = 0;
    while i < ids.len()
        invariant
            i <= ids@.len(),
            f == (|i: int| spec_dense_info_row(ids@, *di, table.model(), dg, i)),
            collect(i as int, f) == Ok::<Seq<InfoModel>, DecodeError>(rows_model(out@)),
            i > 0 ==> id_acc == delta_value(ids@, i as int - 1),
            ({
                let k: int = if i as int <= di.timestamp@.len() as int {
                    i as int
                } else {
                    di.timestamp@.len() as int
                };
                k > 0 ==> ts_acc == delta_value(di.timestamp@, k - 1)
            }),
            ({
                let k: int = if i as int <= di.uid@.len() as int {
                    i as int
                } else {
                    di.uid@.len() as int
                };
                k > 0 ==> uid_acc == delta_value_i32(di.uid@, k - 1)
            }),
            ({
                let k: int = if i as int <= di.user_sid@.len() as int {
                    i as int
                } else {
                    di.user_sid@.len() as int
                };
                sid_acc as int == delta_sum(di.user_sid@, k)
            }),
        decreases ids@.len() - i,
    {
        if i == 0 {
            id_acc = ids[0];
        } else {
            id_acc = id_acc.wrapping_add(ids[i]);
        }
        let version: Option<i32> = if i < di.version.len() {
            Some(di.version[i])
        } else {
            None
        };
        let timestamp: Option<i64> = if i < di.timestamp.len() {
            if i == 0 {
                ts_acc = di.timestamp[0];
            } else {
                ts_acc = ts_acc.wrapping_add(di.timestamp[i]);
            }
            Some(normalize_timestamp(ts_acc, dg))
        } else {
            None
        };
        let uid: Option<i32> = if i < di.uid.len() {
            if i == 0 {
                uid_acc = di.uid[0];
            } else {
                uid_acc = uid_acc.wrapping_add(di.uid[i]);
            }
            Some(uid_acc)
        } else {
            None
        };
        let user: Option<String> = if i < di.user_sid.len() {
            let next: i64 = sid_acc as i64 + di.user_sid[i] as i64;
            if next < 0 || next > u32::MAX as i64 {
                proof {
                    assert(f(i as int) is Err);
                    assert(collect(i as int + 1, f) == Err::<Seq<InfoModel>, DecodeError>(
                        DecodeError::BadStringIndex,
                    ));
                    lemma_collect_err_extends(i as int + 1, ids@.len() as int, f);
                }
                return Err(DecodeError::BadStringIndex);
            }
            sid_acc = next as u32;
            match table.resolve(next) {
                Ok(u) => Some(u),
                Err(e) => {
                    proof {
                        assert(f(i as int) == Err::<InfoModel, DecodeError>(e));
                        assert(collect(i as int + 1, f) == Err::<Seq<InfoModel>, DecodeError>(e));
                        lemma_collect_err_extends(i as int + 1, ids@.len() as int, f);
                    }
                    return Err(e);
                },
            }
        } else {
            None
        };
        let visible: Option<bool> = if i < di.visible.len() {
            Some(di.visible[i])
        } else {
            Some(true)
        };
        out.push(InfoRow { id: id_acc, version, timestamp, uid, user, visible });
        assert(rows_model(out@) =~= collect(i as int, f)->Ok_0.push(f(i as int)->Ok_0));
        i += 1;
    }
    Ok(out)
}

/// The tag rows of a dense block. An empty stream means no node has tags;
/// a non-empty stream must split into exactly one segment per node.
pub open spec fn spec_dense_tag_rows(
    d: DenseNodes,
    st: Seq<Seq<u8>>,
    skip: Seq<Seq<char>>,
) -> Result<Seq<TagModel>, DecodeError> {
    if d.keys_vals@.len() == 0 {
        Ok(Seq::empty())
    } else {
        match kv_segments(d.keys_vals@, d.id@.len() as nat) {
            None => Err(DecodeError::TagStreamMismatch),
            Some(segs) => collect_concat(
                d.id@.len() as int,
                |i: int| spec_tags(delta_value(d.id@, i), seg_pairs(segs[i]), st, skip),
            ),
        }
    }
}

/// Projects the tag rows of a dense node block from its flat key/value
/// stream.
pub fn dense_tag_rows(d: &DenseNodes, table: &StringTable, skip: &Vec<String>) -> (r: Result<
    Vec<TagRow>,
    DecodeError,
>)
    ensures
        ({
            let s = spec_dense_tag_rows(*d, table.model(), skip_keys_model(skip@));
            match r {
                Ok(out) => s == Ok::<Seq<TagModel>, DecodeError>(rows_model(out@)),
                Err(e) => s == Err::<Seq<TagModel>, DecodeError>(e),
            }
        }),
{
    let mut out: Vec<TagRow> = Vec::new();
    assert(rows_model(out@) =~= Seq::<TagModel>::empty());
    if d.keys_vals.len() == 0 {
        return Ok(out);
    }
    let segs: Vec<Vec<i32>> = match split_keys_vals(&d.keys_vals, d.id.len()) {
        Some(segs) => segs,
        None => {
            return Err(DecodeError::TagStreamMismatch);
        },
    };
    let ghost segs_m = kv_segments(d.keys_vals@, d.id@.len() as nat)->0;
    let ghost f = |i: int|
        spec_tags(delta_value(d.id@, i), seg_pairs(segs_m[i]), table.model(), skip_keys_model(skip@));
    proof {
        crate::tags::lemma_sentinel_count(d.keys_vals@, d.id@.len() as nat);
    }
    let mut id_acc: i64 = 0;
    let mut i: usize = 0;
    while i < d.id.len()
        invariant
            i <= d.id@.len(),
            segs@.len() == d.id@.len(),
            segs_m == segs@.map_values(|v: Vec<i32>| v@),
            kv_segments(d.keys_vals@, d.id@.len() as nat) == Some(segs_m),
            f == (|i: int|
                spec_tags(
                    delta_value(d.id@, i),
                    seg_pairs(segs_m[i]),
                    table.model(),
                    skip_keys_model(skip@),
                )),
            collect_concat(i as int, f) == Ok::<Seq<TagModel>, DecodeError>(rows_model(out@)),
            i > 0 ==> id_acc == delta_value(d.id@, i as int - 1),
            d.keys_vals@.len() != 0,
        decreases d.id@.len() - i,
    {
        if i == 0 {
            id_acc = d.id[0];
        } else {
            id_acc = id_acc.wrapping_add(d.id[i]);
        }
        let pairs = pairs_of_segment(&segs[i]);
        assert(pairs@ == seg_pairs(segs_m[i as int]));
        match tags_for_pairs(id_acc, &pairs, table, skip) {
            Ok(mut rows) => {
                let ghost old_out = out@;
                let ghost new_rows = rows@;
                out.append(&mut rows);
                assert(rows_model(out@) =~= rows_model(old_out) + rows_model(new_rows));
            },
            Err(e) => {
                proof {
                    assert(collect_concat(i as int + 1, f) == Err::<Seq<TagModel>, DecodeError>(e));
                    lemma_collect_concat_err_extends(i as int + 1, d.id@.len() as int, f);
                }
                return Err(e);
            },
        }
        i += 1;
    }
    Ok(out)
}

/// The tag rows of a whole array of plain records, in record order.
pub open spec fn spec_plain_tag_rows<P: OsmPrimitive>(
    records: Seq<P>,
    st: Seq<Seq<u8>>,
    skip: Seq<Seq<char>>,
) -> Result<Seq<TagModel>, DecodeError> {
    collect_concat(
        records.len() as int,
        |i: int|
            spec_tags(
                records[i].spec_id(),
                plain_pairs(records[i].spec_keys(), records[i].spec_vals()),
                st,
                skip,
            ),
    )
}

/// Projects the tag rows of an array of plain records.
pub fn tags_for<P: OsmPrimitive>(records: &Vec<P>, table: &StringTable, skip: &Vec<String>) -> (r:
    Result<Vec<TagRow>, DecodeError>)
    ensures
        ({
            let s = spec_plain_tag_rows(records@, table.model(), skip_keys_model(skip@));
            match r {
                Ok(out) => s == Ok::<Seq<TagModel>, DecodeError>(rows_model(out@)),
                Err(e) => s == Err::<Seq<TagModel>, DecodeError>(e),
            }
        }),
{
    let ghost f = |i: int|
        spec_tags(
            records@[i].spec_id(),
            plain_pairs(records@[i].spec_keys(), records@[i].spec_vals()),
            table.model(),
            skip_keys_model(skip@),
        );
    let mut out: Vec<TagRow> = Vec::new();
    assert(rows_model(out@) =~= Seq::<TagModel>::empty());
    let mut i: usize = 0;
    while i < records.len()
        invariant
            i <= records@.len(),
            f == (|i: int|
                spec_tags(
                    records@[i].spec_id(),
                    plain_pairs(records@[i].spec_keys(), records@[i].spec_vals()),
                    table.model(),
                    skip_keys_model(skip@),
                )),
            collect_concat(i as int, f) == Ok::<Seq<TagModel>, DecodeError>(rows_model(out@)),
        decreases records@.len() - i,
    {
        let record = &records[i];
        let pairs = pairs_of_plain(record.keys(), record.vals());
        match tags_for_pairs(record.id(), &pairs, table, skip) {
            Ok(mut rows) => {
                let ghost old_out = out@;
                let ghost new_rows = rows@;
                out.append(&mut rows);
                assert(rows_model(out@) =~= rows_model(old_out) + rows_model(new_rows));
            },
            Err(e) => {
                proof {
                    assert(collect_concat(i as int + 1, f) == Err::<Seq<TagModel>, DecodeError>(e));
                    lemma_collect_concat_err_extends(i as int + 1, records@.len() as int, f);
                }
                return Err(e);
            },
        }
        i += 1;
    }
    Ok(out)
}

/// The primary node rows of a plain node array, coordinates normalized.
pub open spec fn spec_plain_node_rows(
    nodes: Seq<Node>,
    gran: i64,
    lat_off: i64,
    lon_off: i64,
) -> Seq<NodeRow> {
    Seq::new(
        nodes.len(),
        |i: int|
            NodeRow {
                id: nodes[i].id,
                lat: spec_normalize_coord(nodes[i].lat, gran, lat_off),
                lon: spec_normalize_coord(nodes[i].lon, gran, lon_off),
            },
    )
}

/// Projects the primary rows of a plain node array.
pub fn plain_node_rows(nodes: &Vec<Node>, gran: i64, lat_off: i64, lon_off: i64) -> (r: Vec<
    NodeRow,
>)
    ensures
        r@ == spec_plain_node_rows(nodes@, gran, lat_off, lon_off),
{
    let ghost s = spec_plain_node_rows(nodes@, gran, lat_off, lon_off);
    let mut out: Vec<NodeRow> = Vec::new();
    let mut i: usize = 0;
    while i < nodes.len()
        invariant
            i <= nodes@.len(),
            s == spec_plain_node_rows(nodes@, gran, lat_off, lon_off),
            out@ == s.take(i as int),
        decreases nodes@.len() - i,
    {
        let node = &nodes[i];
        out.push(
            NodeRow {
                id: node.id,
                lat: normalize_coord(node.lat, gran, lat_off),
                lon: normalize_coord(node.lon, gran, lon_off),
            },
        );
        assert(out@ =~= s.take(i as int + 1));
        i += 1;
    }
    assert(out@ =~= s);
    out
}

/// The primary rows of a way array.
pub open spec fn spec_way_rows(ways: Seq<Way>) -> Seq<WayRow> {
    Seq::new(ways.len(), |i: int| WayRow { id: ways[i].id })
}

/// Projects the primary rows of a way array.
pub fn way_rows(ways: &Vec<Way>) -> (r: Vec<WayRow>)
    ensures
        r@ == spec_way_rows(ways@),
{
    let mut out: Vec<WayRow> = Vec::new();
    let mut i: usize = 0;
    while i < ways.len()
        invariant
            i <= ways@.len(),
            out@ == spec_way_rows(ways@).take(i as int),
        decreases ways@.len() - i,
    {
        out.push(WayRow { id: ways[i].id });
        assert(out@ =~= spec_way_rows(ways@).take(i as int + 1));
        i += 1;
    }
    assert(out@ =~= spec_way_rows(ways@));
    out
}

/// The primary rows of a relation array.
pub open spec fn spec_relation_rows(relations: Seq<Relation>) -> Seq<RelationRow> {
    Seq::new(relations.len(), |i: int| RelationRow { id: relations[i].id })
}

/// Projects the primary rows of a relation array.
pub fn relation_rows(relations: &Vec<Relation>) -> (r: Vec<RelationRow>)
    ensures
        r@ == spec_relation_rows(relations@),
{
    let mut out: Vec<RelationRow> = Vec::new();
    let mut i: usize = 0;
    while i < relations.len()
        invariant
            i <= relations@.len(),
            out@ == spec_relation_rows(relations@).take(i as int),
        decreases relations@.len() - i,
    {
        out.push(RelationRow { id: relations[i].id });
        assert(out@ =~= spec_relation_rows(relations@).take(i as int + 1));
        i += 1;
    }
    assert(out@ =~= spec_relation_rows(relations@));
    out
}

/// The ordered reference rows of one way: its delta-decoded node ids, in
/// stream order, which is the way's geometry.
pub open spec fn spec_refs_of_way(w: Way) -> Seq<WayRefRow> {
    Seq::new(
        w.refs@.len(),
        |j: int| WayRefRow { way_id: w.id, ref_node_id: delta_value(w.refs@, j) },
    )
}

/// The reference rows of a whole way array, way by way.
pub open spec fn spec_way_ref_rows(ways: Seq<Way>) -> Seq<WayRefRow>
    decreases ways.len(),
{
    if ways.len() == 0 {
        Seq::empty()
    } else {
        spec_way_ref_rows(ways.drop_last()) + spec_refs_of_way(ways.last())
    }
}

/// Projects the ordered node references of every way.
pub fn way_ref_rows(ways: &Vec<Way>) -> (r: Vec<WayRefRow>)
    ensures
        r@ == spec_way_ref_rows(ways@),
{
    let mut out: Vec<WayRefRow> = Vec::new();
    let mut i: usize = 0;
    while i < ways.len()
        invariant
            i <= ways@.len(),
            out@ == spec_way_ref_rows(ways@.take(i as int)),
        decreases ways@.len() - i,
    {
        let w = &ways[i];
        let mut acc: i64 = 0;
        let mut j: usize = 0;
        while j < w.refs.len()
            invariant
                j <= w.refs@.len(),
                out@ == spec_way_ref_rows(ways@.take(i as int)) + spec_refs_of_way(*w).take(
                    j as int,
                ),
                j > 0 ==> acc == delta_value(w.refs@, j as int - 1),
                i < ways@.len(),
                w == ways@[i as int],
            decreases w.refs@.len() - j,
        {
            if j == 0 {
                acc = w.refs[0];
            } else {
                acc = acc.wrapping_add(w.refs[j]);
            }
            out.push(WayRefRow { way_id: w.id, ref_node_id: acc });
            assert(out@ =~= spec_way_ref_rows(ways@.take(i as int)) + spec_refs_of_way(*w).take(
                j as int + 1,
            ));
            j += 1;
        }
        proof {
            assert(ways@.take(i as int + 1).drop_last() =~= ways@.take(i as int));
            assert(ways@.take(i as int + 1).last() == ways@[i as int]);
            assert(spec_refs_of_way(*w).take(j as int) =~= spec_refs_of_way(*w));
        }
        i += 1;
    }
    assert(ways@.take(ways@.len() as int) =~= ways@);
    out
}

/// The membership row of relation member `i`: the delta-decoded member id
/// lands in exactly one of the three member columns according to the type
/// code; the other two stay empty; the role is resolved from the string
/// table. A type code outside the closed enum is fatal.
pub open spec fn spec_member_row(rel: Relation, st: Seq<Seq<u8>>, i: int) -> Result<
    MemberModel,
    DecodeError,
> {
    let t = rel.types@[i];
    if t != 0 && t != 1 && t != 2 {
        Err(DecodeError::BadMemberType)
    } else {
        match spec_resolve(st, rel.roles_sid@[i] as int) {
            Err(e) => Err(e),
            Ok(role) => Ok(
                MemberModel {
                    relation_id: rel.id,
                    member_node_id: if t == 0 {
                        Some(delta_value(rel.memids@, i))
                    } else {
                        None
                    },
                    member_way_id: if t == 1 {
                        Some(delta_value(rel.memids@, i))
                    } else {
                        None
                    },
                    member_relation_id: if t == 2 {
                        Some(delta_value(rel.memids@, i))
                    } else {
                        None
                    },
                    role: role,
                },
            ),
        }
    }
}

/// The membership rows of one relation: its three member arrays must share
/// one length and are read in lock-step, in order.
pub open spec fn spec_members_of_relation(rel: Relation, st: Seq<Seq<u8>>) -> Result<
    Seq<MemberModel>,
    DecodeError,
> {
    if rel.types@.len() != rel.memids@.len() || rel.roles_sid@.len() != rel.memids@.len() {
        Err(DecodeError::LengthMismatch)
    } else {
        collect(rel.memids@.len() as int, |i: int| spec_member_row(rel, st, i))
    }
}

/// The membership rows of a whole relation array, relation by relation.
pub open spec fn spec_relation_member_rows(relations: Seq<Relation>, st: Seq<Seq<u8>>) -> Result<
    Seq<MemberModel>,
    DecodeError,
> {
    collect_concat(
        relations.len() as int,
        |i: int| spec_members_of_relation(relations[i], st),
    )
}

fn members_of_relation(rel: &Relation, table: &StringTable) -> (r: Result<
    Vec<MemberRow>,
    DecodeError,
>)
    ensures
        ({
            let s = spec_members_of_relation(*rel, table.model());
            match r {
                Ok(out) => s == Ok::<Seq<MemberModel>, DecodeError>(rows_model(out@)),
                Err(e) => s == Err::<Seq<MemberModel>, DecodeError>(e),
            }
        }),
{
    if rel.types.len() != rel.memids.len() || rel.roles_sid.len() != rel.memids.len() {
        return Err(DecodeError::LengthMismatch);
    }
    let ghost f = |i: int| spec_member_row(*rel, table.model(), i);
    let mut out: Vec<MemberRow> = Vec::new();
    assert(rows_model(out@) =~= Seq::<MemberModel>::empty());
    let mut acc: i64 = 0;
    let mut i: usize = 0;
    while i < rel.memids.len()
        invariant
            i <= rel.memids@.len(),
            rel.types@.len() == rel.memids@.len(),
            rel.roles_sid@.len() == rel.memids@.len(),
            f == (|i: int| spec_member_row(*rel, table.model(), i)),
            collect(i as int, f) == Ok::<Seq<MemberModel>, DecodeError>(rows_model(out@)),
            i > 0 ==> acc == delta_value(rel.memids@, i as int - 1),
        decreases rel.memids@.len() - i,
    {
        if i == 0 {
            acc = rel.memids[0];
        } else {
            acc = acc.wrapping_add(rel.memids[i]);
        }
        let t = rel.types[i];
        if t != 0 && t != 1 && t != 2 {
            proof {
                assert(collect(i as int + 1, f) == Err::<Seq<MemberModel>, DecodeError>(
                    DecodeError::BadMemberType,
                ));
                lemma_collect_err_extends(i as int + 1, rel.memids@.len() as int, f);
            }
            return Err(DecodeError::BadMemberType);
        }
        let role = match table.resolve(rel.roles_sid[i] as i64) {
            Ok(role) => role,
            Err(e) => {
                proof {
                    assert(collect(i as int + 1, f) == Err::<Seq<MemberModel>, DecodeError>(e));
                    lemma_collect_err_extends(i as int + 1, rel.memids@.len() as int, f);
                }
                return Err(e);
            },
        };
        out.push(
            MemberRow {
                relation_id: rel.id,
                member_node_id: if t == 0 {
                    Some(acc)
                } else {
                    None
                },
                member_way_id: if t == 1 {
                    Some(acc)
                } else {
                    None
                },
                member_relation_id: if t == 2 {
                    Some(acc)
                } else {
                    None
                },
                role,
            },
        );
        assert(rows_model(out@) =~= collect(i as int, f)->Ok_0.push(f(i as int)->Ok_0));
        i += 1;
    }
    Ok(out)
}

/// Projects the membership rows of every relation, in relation order; row
/// order encodes geometry semantics downstream and is preserved.
pub fn relation_member_rows(relations: &Vec<Relation>, table: &StringTable) -> (r: Result<
    Vec<MemberRow>,
    DecodeError,
>)
    ensures
        ({
            let s = spec_relation_member_rows(relations@, table.model());
            match r {
                Ok(out) => s == Ok::<Seq<MemberModel>, DecodeError>(rows_model(out@)),
                Err(e) => s == Err::<Seq<MemberModel>, DecodeError>(e),
            }
        }),
{
    let ghost f = |i: int| spec_members_of_relation(relations@[i], table.model());
    let mut out: Vec<MemberRow> = Vec::new();
    assert(rows_model(out@) =~= Seq::<MemberModel>::empty());
    let mut i: usize = 0;
    while i < relations.len()
        invariant
            i <= relations@.len(),
            f == (|i: int| spec_members_of_relation(relations@[i], table.model())),
            collect_concat(i as int, f) == Ok::<Seq<MemberModel>, DecodeError>(rows_model(out@)),
        decreases relations@.len() - i,
    {
        match members_of_relation(&relations[i], table) {
            Ok(mut rows) => {
                let ghost old_out = out@;
                let ghost new_rows = rows@;
                out.append(&mut rows);
                assert(rows_model(out@) =~= rows_model(old_out) + rows_model(new_rows));
            },
            Err(e) => {
                proof {
                    assert(collect_concat(i as int + 1, f) == Err::<Seq<MemberModel>, DecodeError>(
                        e,
                    ));
                    lemma_collect_concat_err_extends(i as int + 1, relations@.len() as int, f);
                }
                return Err(e);
            },
        }
        i += 1;
    }
    Ok(out)
}

/// A relation member with type code 1 (a way) yields a row whose way-member
/// column holds the delta-decoded member id, whose node- and
/// relation-member columns are empty, and whose role is the string resolved
/// at its role index.
pub proof fn lemma_way_member_shape(rel: Relation, st: Seq<Seq<u8>>, i: int)
    requires
        spec_members_of_relation(rel, st) is Ok,
        0 <= i < rel.memids@.len(),
        rel.types@[i] == 1,
    ensures
        ({
            let rows = spec_members_of_relation(rel, st)->Ok_0;
            rows.len() == rel.memids@.len() && rows[i].member_way_id == Some(
                delta_value(rel.memids@, i),
            ) && rows[i].member_node_id is None && rows[i].member_relation_id is None
                && rows[i].role == spec_resolve(st, rel.roles_sid@[i] as int)->Ok_0
                && rows[i].relation_id == rel.id
        }),
{
    let f = |j: int| spec_member_row(rel, st, j);
    crate::results::lemma_collect_ok(rel.memids@.len() as int, f);
    assert(f(i) is Ok);
}

} // verus!
