//! The decoded block model: what one unit of the input stream holds once the
//! framing layer has unpacked it. All entities are block-scoped and dropped
//! after projection; no decode state crosses block boundaries.

use vstd::prelude::*;
use crate::strtab::StringTable;

verus! {

/// A bounding box in raw nanodegree units.
pub struct BoundingBox {
    pub left: i64,
    pub right: i64,
    pub top: i64,
    pub bottom: i64,
}

/// The header block: descriptive metadata about the whole stream.
pub struct HeaderBlock {
    pub bbox: Option<BoundingBox>,
    pub required_features: Vec<String>,
    pub optional_features: Vec<String>,
    pub writingprogram: Option<String>,
    pub source: Option<String>,
    pub osmosis_replication_timestamp: Option<i64>,
    pub osmosis_replication_sequence_number: Option<i64>,
    pub osmosis_replication_base_url: Option<String>,
}

/// Non-columnar metadata of one record. `user_sid` indexes the string table.
pub struct Info {
    pub version: Option<i32>,
    pub timestamp: Option<i64>,
    pub uid: Option<i32>,
    pub user_sid: Option<u32>,
    pub visible: Option<bool>,
}

/// Columnar metadata of dense nodes. `timestamp`, `uid` and `user_sid` are
/// delta coded; `version` and `visible` are not. Columns may be shorter than
/// the node count; missing entries mean "absent" for that node.
pub struct DenseInfo {
    pub version: Vec<i32>,
    pub timestamp: Vec<i64>,
    pub uid: Vec<i32>,
    pub user_sid: Vec<i32>,
    pub visible: Vec<bool>,
}

/// Dense nodes: parallel delta-coded arrays `id`, `lat`, `lon` of one shared
/// length, optional columnar metadata, and a flat sentinel-terminated
/// key/value index stream.
pub struct DenseNodes {
    pub id: Vec<i64>,
    pub lat: Vec<i64>,
    pub lon: Vec<i64>,
    pub denseinfo: Option<DenseInfo>,
    pub keys_vals: Vec<i32>,
}

/// A plain node. `keys` and `vals` pair positionally.
pub struct Node {
    pub id: i64,
    pub keys: Vec<u32>,
    pub vals: Vec<u32>,
    pub info: Option<Info>,
    pub lat: i64,
    pub lon: i64,
}

/// A way: its ordered geometry is the delta-coded `refs` array.
pub struct Way {
    pub id: i64,
    pub keys: Vec<u32>,
    pub vals: Vec<u32>,
    pub info: Option<Info>,
    pub refs: Vec<i64>,
}

/// A relation: `roles_sid`, `memids` and `types` are parallel arrays, one
/// entry per membership row. `memids` is delta coded.
pub struct Relation {
    pub id: i64,
    pub keys: Vec<u32>,
    pub vals: Vec<u32>,
    pub info: Option<Info>,
    pub roles_sid: Vec<i32>,
    pub memids: Vec<i64>,
    pub types: Vec<i32>,
}

/// One group of primitives. Dense nodes take precedence over the plain node
/// array: when `dense` is present the plain array is not read.
pub struct PrimitiveGroup {
    pub nodes: Vec<Node>,
    pub dense: Option<DenseNodes>,
    pub ways: Vec<Way>,
    pub relations: Vec<Relation>,
}

/// A primitive block: a string table, groups of primitives, and the scale
/// parameters that normalize raw coordinate and timestamp units.
pub struct PrimitiveBlock {
    pub stringtable: StringTable,
    pub primitivegroup: Vec<PrimitiveGroup>,
    pub granularity: Option<i32>,
    pub lat_offset: Option<i64>,
    pub lon_offset: Option<i64>,
    pub date_granularity: Option<i32>,
}

impl PrimitiveBlock {
    /// Nanodegrees per coordinate unit; 100 when the block does not say.
    pub open spec fn spec_granularity(&self) -> i64 {
        match self.granularity {
            Some(g) => g as i64,
            None => 100,
        }
    }

    /// Latitude offset in nanodegrees; 0 when the block does not say.
    pub open spec fn spec_lat_offset(&self) -> i64 {
        match self.lat_offset {
            Some(o) => o,
            None => 0,
        }
    }

    /// Longitude offset in nanodegrees; 0 when the block does not say.
    pub open spec fn spec_lon_offset(&self) -> i64 {
        match self.lon_offset {
            Some(o) => o,
            None => 0,
        }
    }

    /// Milliseconds per timestamp unit; 1000 when the block does not say.
    pub open spec fn spec_date_granularity(&self) -> i64 {
        match self.date_granularity {
            Some(d) => d as i64,
            None => 1000,
        }
    }

    /// Nanodegrees per coordinate unit.
    pub fn eff_granularity(&self) -> (r: i64)
        ensures
            r == self.spec_granularity(),
    {
        match self.granularity {
            Some(g) => g as i64,
            None => 100,
        }
    }

    /// Latitude offset in nanodegrees.
    pub fn eff_lat_offset(&self) -> (r: i64)
        ensures
            r == self.spec_lat_offset(),
    {
        match self.lat_offset {
            Some(o) => o,
            None => 0,
        }
    }

    /// Longitude offset in nanodegrees.
    pub fn eff_lon_offset(&self) -> (r: i64)
        ensures
            r == self.spec_lon_offset(),
    {
        match self.lon_offset {
            Some(o) => o,
            None => 0,
        }
    }

    /// Milliseconds per timestamp unit.
    pub fn eff_date_granularity(&self) -> (r: i64)
        ensures
            r == self.spec_date_granularity(),
    {
        match self.date_granularity {
            Some(d) => d as i64,
            None => 1000,
        }
    }
}

} // verus!
