//! The versioned records the store holds: entities, nodes and edges, all
//! sharing one record shape, plus the payload documents they carry.

use vstd::prelude::*;

verus! {

/// Which family a record belongs to. Entities and nodes are plain payload
/// carriers; an edge additionally connects two vertices.
#[derive(Clone, Copy, Debug, PartialEq, Eq, Structural)]
pub enum RecordKind {
    Entity,
    Node,
    Edge,
}

/// The kind-specific part of a payload. The named variants are the kinds
/// the core knows; `Extension` carries any other kind as an opaque tag and
/// an uninterpreted document, so the set of kinds stays open.
#[derive(Debug, PartialEq, Eq)]
pub enum PayloadData {
    Application,
    System,
    Service,
    Extension { kind: String, document: String },
}

/// A structured payload: every record has a display name, and then data
/// specific to its declared kind.
#[derive(Debug, PartialEq, Eq)]
pub struct Payload {
    pub name: String,
    pub data: PayloadData,
}

/// One end of an edge: the stable identity of the entity it points at.
#[derive(Debug, PartialEq, Eq)]
pub struct VertexRef {
    pub object_id: String,
}

/// What makes a record an edge: its edge kind (an opaque tag, e.g.
/// "Includes") and its tail and head vertices.
#[derive(Debug, PartialEq, Eq)]
pub struct EdgeData {
    pub edge_kind: String,
    pub tail: VertexRef,
    pub head: VertexRef,
}

/// A versioned record. The same shape serves entities, nodes and edges;
/// only an edge carries `EdgeData`.
#[derive(Debug, PartialEq, Eq)]
pub struct Record {
    pub kind: RecordKind,
    pub payload: Payload,
    pub edge: Option<EdgeData>,
}

impl Record {
    /// A record is well formed when it carries edge data exactly if it is
    /// declared an edge.
    pub open spec fn wf(self) -> bool {
        (self.kind is Edge) <==> (self.edge is Some)
    }

    /// The executable well-formedness check; the store rejects records
    /// that fail it with a `Serialization` error.
    pub fn check_wf(&self) -> (r: bool)
        ensures
            r == self.wf(),
    {
        match (&self.kind, &self.edge) {
            (RecordKind::Edge, Option::Some(_)) => true,
            (RecordKind::Edge, Option::None) => false,
            (_, Option::Some(_)) => false,
            (_, Option::None) => true,
        }
    }
}

impl Clone for VertexRef {
    fn clone(&self) -> (r: Self)
        ensures
            r == *self,
    {
        VertexRef { object_id: self.object_id.clone() }
    }
}

impl Clone for EdgeData {
    fn clone(&self) -> (r: Self)
        ensures
            r == *self,
    {
        EdgeData {
            edge_kind: self.edge_kind.clone(),
            tail: self.tail.clone(),
            head: self.head.clone(),
        }
    }
}

impl Clone for PayloadData {
    fn clone(&self) -> (r: Self)
        ensures
            r == *self,
    {
        match self {
            PayloadData::Application => PayloadData::Application,
            PayloadData::System => PayloadData::System,
            PayloadData::Service => PayloadData::Service,
            PayloadData::Extension { kind, document } => PayloadData::Extension {
                kind: kind.clone(),
                document: document.clone(),
            },
        }
    }
}

impl Clone for Payload {
    fn clone(&self) -> (r: Self)
        ensures
            r == *self,
    {
        Payload { name: self.name.clone(), data: self.data.clone() }
    }
}

impl Clone for Record {
    fn clone(&self) -> (r: Self)
        ensures
            r == *self,
    {
        Record {
            kind: self.kind,
            payload: self.payload.clone(),
            edge: match &self.edge {
                Option::Some(e) => Option::Some(e.clone()),
                Option::None => Option::None,
            },
        }
    }
}

/// What a tier stores for an object: a live record, or a tombstone left by
/// a deletion drafted at that tier. Promoting a tombstone deletes the row
/// one tier up; Head itself never stores tombstones.
#[derive(Debug, PartialEq, Eq)]
pub enum Doc {
    Live(Record),
    Tombstone,
}

impl Doc {
    /// A stored document is well formed when any live record in it is.
    pub open spec fn wf(self) -> bool {
        match self {
            Doc::Live(r) => r.wf(),
            Doc::Tombstone => true,
        }
    }
}

impl Clone for Doc {
    fn clone(&self) -> (r: Self)
        ensures
            r == *self,
    {
        match self {
            Doc::Live(rec) => Doc::Live(rec.clone()),
            Doc::Tombstone => Doc::Tombstone,
        }
    }
}

/// A drafted mutation, applied to an object inside an edit session.
/// `Replace` creates the object or overwrites it wholly; `Rename` keeps the
/// current record and changes only its payload name (this is where the
/// copy-on-write ancestor matters); `Delete` drafts a tombstone.
#[derive(Debug)]
pub enum Mutation {
    Replace(Record),
    Rename(String),
    Delete,
}

} // verus!
