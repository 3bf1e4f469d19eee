//! The relational rows that projection emits, and their mathematical views.
//! Rows whose fields are plain integers are their own model; rows carrying
//! text have a ghost mirror over character sequences.

use vstd::prelude::*;

verus! {

/// A row of the `nodes` table. Coordinates are normalized nanodegrees.
#[derive(Clone, Copy, Debug, PartialEq, Eq, Structural)]
pub struct NodeRow {
    pub id: i64,
    pub lat: i64,
    pub lon: i64,
}

/// A row of the `ways` table.
#[derive(Clone, Copy, Debug, PartialEq, Eq, Structural)]
pub struct WayRow {
    pub id: i64,
}

/// A row of the `way_refs` table: one ordered node reference of a way.
#[derive(Clone, Copy, Debug, PartialEq, Eq, Structural)]
pub struct WayRefRow {
    pub way_id: i64,
    pub ref_node_id: i64,
}

/// A row of the `relations` table.
#[derive(Clone, Copy, Debug, PartialEq, Eq, Structural)]
pub struct RelationRow {
    pub id: i64,
}

/// A row of a tag table: one key/value pair of a record.
#[derive(Clone, Debug)]
pub struct TagRow {
    pub id: i64,
    pub key: String,
    pub value: String,
}

/// The mathematical view of a tag row.
#[verifier::ext_equal]
pub ghost struct TagModel {
    pub id: i64,
    pub key: Seq<char>,
    pub value: Seq<char>,
}

impl View for TagRow {
    type V = TagModel;

    open spec fn view(&self) -> TagModel {
        TagModel { id: self.id, key: self.key@, value: self.value@ }
    }
}

/// A row of an info table: the metadata of one record. The timestamp is in
/// epoch seconds; `user` is the resolved user name, when present.
#[derive(Clone, Debug)]
pub struct InfoRow {
    pub id: i64,
    pub version: Option<i32>,
    pub timestamp: Option<i64>,
    pub uid: Option<i32>,
    pub user: Option<String>,
    pub visible: Option<bool>,
}

/// The mathematical view of an info row.
#[verifier::ext_equal]
pub ghost struct InfoModel {
    pub id: i64,
    pub version: Option<i32>,
    pub timestamp: Option<i64>,
    pub uid: Option<i32>,
    pub user: Option<Seq<char>>,
    pub visible: Option<bool>,
}

impl View for InfoRow {
    type V = InfoModel;

    open spec fn view(&self) -> InfoModel {
        InfoModel {
            id: self.id,
            version: self.version,
            timestamp: self.timestamp,
            uid: self.uid,
            user: match self.user {
                Some(u) => Some(u@),
                None => None,
            },
            visible: self.visible,
        }
    }
}

/// A row of the `relation_members` table: exactly one of the three member
/// columns is populated, according to the member's type.
#[derive(Clone, Debug)]
pub struct MemberRow {
    pub relation_id: i64,
    pub member_node_id: Option<i64>,
    pub member_way_id: Option<i64>,
    pub member_relation_id: Option<i64>,
    pub role: String,
}

/// The mathematical view of a relation member row.
#[verifier::ext_equal]
pub ghost struct MemberModel {
    pub relation_id: i64,
    pub member_node_id: Option<i64>,
    pub member_way_id: Option<i64>,
    pub member_relation_id: Option<i64>,
    pub role: Seq<char>,
}

impl View for MemberRow {
    type V = MemberModel;

    open spec fn view(&self) -> MemberModel {
        MemberModel {
            relation_id: self.relation_id,
            member_node_id: self.member_node_id,
            member_way_id: self.member_way_id,
            member_relation_id: self.member_relation_id,
            role: self.role@,
        }
    }
}

/// The value of one header row: raw bounding-box coordinates and replication
/// counters are integers, everything else is text.
#[derive(Clone, Debug)]
pub enum HeaderValue {
    Int(i64),
    Text(String),
}

/// The mathematical view of a header value.
#[verifier::ext_equal]
pub ghost enum HeaderValueModel {
    Int(i64),
    Text(Seq<char>),
}

impl View for HeaderValue {
    type V = HeaderValueModel;

    open spec fn view(&self) -> HeaderValueModel {
        match self {
            HeaderValue::Int(v) => HeaderValueModel::Int(*v),
            HeaderValue::Text(t) => HeaderValueModel::Text(t@),
        }
    }
}

/// A row of the `header` table: one key/value pair of stream metadata.
#[derive(Clone, Debug)]
pub struct HeaderRow {
    pub key: String,
    pub value: HeaderValue,
}

/// The mathematical view of a header row.
#[verifier::ext_equal]
pub ghost struct HeaderRowModel {
    pub key: Seq<char>,
    pub value: HeaderValueModel,
}

impl View for HeaderRow {
    type V = HeaderRowModel;

    open spec fn view(&self) -> HeaderRowModel {
        HeaderRowModel { key: self.key@, value: self.value@ }
    }
}

/// The view of a sequence of rows: the sequence of their views.
pub open spec fn rows_model<T: View>(v: Seq<T>) -> Seq<T::V> {
    v.map_values(|x: T| x@)
}

} // verus!
