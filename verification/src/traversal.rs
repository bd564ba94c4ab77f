//! Tier-aware reads over many objects: listing records of a kind, and
//! walking "successor" edges out of a vertex. Traversal never recurses by
//! itself; callers recurse explicitly, which bounds cost and leaves cycle
//! handling to them.

use vstd::prelude::*;
use crate::record::{Record, RecordKind};
use crate::store::Store;
use crate::table::{lemma_key_eta, lemma_table_contains, Tier};

verus! {

impl Store {
    /// Whether a tier is read in the given context.
    pub open spec fn spec_tier_visible(t: Tier, cs: Option<u64>, es: Option<u64>) -> bool {
        match t {
            Tier::Head => true,
            Tier::ChangeSet(c) => cs == Option::Some(c),
            Tier::EditSession(s) => es == Option::Some(s),
        }
    }

    /// Whether any tier read in the given context has a row for the object
    /// (live or tombstone).
    pub open spec fn spec_visible(self, oid: Seq<char>, cs: Option<u64>, es: Option<u64>) -> bool {
        ||| self.head_docs().contains_key(oid)
        ||| (cs matches Option::Some(c) && self.cs_docs(c).contains_key(oid))
        ||| (es matches Option::Some(s) && self.es_docs(s).contains_key(oid))
    }

    /// Every object id some visible tier has a row for, each id once.
    fn visible_object_ids(&self, cs: Option<u64>, es: Option<u64>) -> (ids: Vec<String>)
        requires
            self.wf(),
        ensures
            forall|a: int, b: int| 0 <= a < b < ids@.len() ==> ids@[a]@ != ids@[b]@,
            forall|i: int|
                0 <= i < ids@.len() ==> self.spec_visible(#[trigger] ids@[i]@, cs, es),
            forall|oid: Seq<char>|
                #[trigger] self.spec_visible(oid, cs, es) ==> exists|i: int|
                    0 <= i < ids@.len() && (#[trigger] ids@[i])@ == oid,
    {
        let rows = &self.table.rows;
        let n = rows.len();
        let mut ids: Vec<String> = Vec::new();
        let mut i: usize = 0;
        while i < n
            invariant
                self.wf(),
                n == rows@.len(),
                rows == self.table.rows,
                i <= n,
                forall|a: int, b: int| 0 <= a < b < ids@.len() ==> ids@[a]@ != ids@[b]@,
                forall|j: int|
                    0 <= j < ids@.len() ==> self.spec_visible((#[trigger] ids@[j])@, cs, es),
                forall|m: int|
                    0 <= m < i && Store::spec_tier_visible((#[trigger] rows@[m]).tier, cs, es)
                        ==> exists|j: int| 0 <= j < ids@.len() && (#[trigger] ids@[j])@
                        == rows@[m].object_id@,
            decreases n - i,
        {
            let row = &rows[i];
            let vis = match row.tier {
                Tier::Head => true,
                Tier::ChangeSet(c2) => match cs {
                    Option::Some(c) => c == c2,
                    Option::None => false,
                },
                Tier::EditSession(s2) => match es {
                    Option::Some(s) => s == s2,
                    Option::None => false,
                },
            };
            if vis {
                let mut seen = false;
                let mut j: usize = 0;
                while j < ids.len()
                    invariant
                        j <= ids@.len(),
                        seen == exists|m: int| 0 <= m < j && (#[trigger] ids@[m])@
                            == rows@[i as int].object_id@,
                        i < rows@.len(),
                        rows == self.table.rows,
                        *row == rows@[i as int],
                    decreases ids@.len() - j,
                {
                    let idj: &String = &ids[j];
                    let target: &String = &row.object_id;
                    if *idj == *target {
                        proof {
                            assert((ids@[j as int])@ == rows@[i as int].object_id@);
                        }
                        seen = true;
                    }
                    j = j + 1;
                }
                if !seen {
                    let ghost prev = ids@;
                    ids.push(row.object_id.clone());
                    proof {
                        assert(ids@.len() == prev.len() + 1);
                        assert(forall|j: int| 0 <= j < prev.len() ==> ids@[j] == prev[j]);
                        assert((ids@[prev.len() as int])@ == rows@[i as int].object_id@);
                        crate::table::lemma_table_index(rows@, i as int);
                        lemma_key_eta(rows@[i as int].key());
                        assert(self.spec_visible(rows@[i as int].object_id@, cs, es)) by {
                            match rows@[i as int].tier {
                                Tier::Head => {
                                    assert(self.head_docs().contains_key(
                                        rows@[i as int].object_id@,
                                    ));
                                },
                                Tier::ChangeSet(c2) => {
                                    assert(self.cs_docs(c2).contains_key(
                                        rows@[i as int].object_id@,
                                    ));
                                },
                                Tier::EditSession(s2) => {
                                    assert(self.es_docs(s2).contains_key(
                                        rows@[i as int].object_id@,
                                    ));
                                },
                            }
                        }
                    }
                }
            }
            i = i + 1;
        }
        proof {
            assert forall|oid: Seq<char>| #[trigger] self.spec_visible(oid, cs, es) implies exists|j: int|
                0 <= j < ids@.len() && (#[trigger] ids@[j])@ == oid by {
                if self.head_docs().contains_key(oid) {
                    lemma_table_contains(rows@, (Tier::Head, oid));
                    let m = choose|m: int| 0 <= m < rows@.len() && rows@[m].key() == (
                        Tier::Head,
                        oid,
                    );
                    assert(Store::spec_tier_visible(rows@[m].tier, cs, es));
                } else if cs matches Option::Some(c) && self.cs_docs(c).contains_key(oid) {
                    let c = cs->Some_0;
                    lemma_table_contains(rows@, (Tier::ChangeSet(c), oid));
                    let m = choose|m: int| 0 <= m < rows@.len() && rows@[m].key() == (
                        Tier::ChangeSet(c),
                        oid,
                    );
                    assert(Store::spec_tier_visible(rows@[m].tier, cs, es));
                } else {
                    let s = es->Some_0;
                    lemma_table_contains(rows@, (Tier::EditSession(s), oid));
                    let m = choose|m: int| 0 <= m < rows@.len() && rows@[m].key() == (
                        Tier::EditSession(s),
                        oid,
                    );
                    assert(Store::spec_tier_visible(rows@[m].tier, cs, es));
                }
            }
        }
        ids
    }

    /// List every record of one kind the context can see, each
    /// independently resolved through the usual fallback chain. Objects
    /// whose first applicable tier holds a tombstone are omitted.
    pub fn list(&self, kind: RecordKind, change_set_id: Option<u64>, edit_session_id: Option<
        u64,
    >) -> (out: Vec<(String, Record)>)
        requires
            self.wf(),
        ensures
            forall|a: int, b: int| 0 <= a < b < out@.len() ==> out@[a].0@ != out@[b].0@,
            forall|i: int|
                0 <= i < out@.len() ==> self.spec_resolve(
                    (#[trigger] out@[i]).0@,
                    change_set_id,
                    edit_session_id,
                ) == Option::Some(out@[i].1) && out@[i].1.kind == kind,
            forall|oid: Seq<char>|
                #[trigger] self.spec_visible(oid, change_set_id, edit_session_id) && (
                self.spec_resolve(oid, change_set_id, edit_session_id) matches Option::Some(r)
                    && r.kind == kind) ==> exists|i: int|
                    0 <= i < out@.len() && (#[trigger] out@[i]).0@ == oid,
    {
        let ids = self.visible_object_ids(change_set_id, edit_session_id);
        let mut out: Vec<(String, Record)> = Vec::new();
        let mut i: usize = 0;
        while i < ids.len()
            invariant
                self.wf(),
                i <= ids@.len(),
                forall|a: int, b: int| 0 <= a < b < ids@.len() ==> ids@[a]@ != ids@[b]@,
                forall|j: int|
                    0 <= j < out@.len() ==> exists|m: int| 0 <= m < i && (#[trigger] out@[j]).0@
                        == ids@[m]@,
                forall|a: int, b: int| 0 <= a < b < out@.len() ==> out@[a].0@ != out@[b].0@,
                forall|j: int|
                    0 <= j < out@.len() ==> self.spec_resolve(
                        (#[trigger] out@[j]).0@,
                        change_set_id,
                        edit_session_id,
                    ) == Option::Some(out@[j].1) && out@[j].1.kind == kind,
                forall|m: int|
                    0 <= m < i && (self.spec_resolve(
                        (#[trigger] ids@[m])@,
                        change_set_id,
                        edit_session_id,
                    ) matches Option::Some(r) && r.kind == kind) ==> exists|j: int|
                        0 <= j < out@.len() && (#[trigger] out@[j]).0@ == ids@[m]@,
            decreases ids@.len() - i,
        {
            match self.resolve(&ids[i], change_set_id, edit_session_id) {
                Result::Ok(rec) => {
                    let keep = match (&rec.kind, &kind) {
                        (RecordKind::Entity, RecordKind::Entity) => true,
                        (RecordKind::Node, RecordKind::Node) => true,
                        (RecordKind::Edge, RecordKind::Edge) => true,
                        _ => false,
                    };
                    if keep {
                        let ghost prev = out@;
                        out.push((ids[i].clone(), rec));
                        proof {
                            assert(out@.len() == prev.len() + 1);
                            assert(forall|j: int| 0 <= j < prev.len() ==> out@[j] == prev[j]);
                            assert((out@[prev.len() as int]).0@ == ids@[i as int]@);
                        }
                    }
                },
                Result::Err(_) => {},
            }
            i = i + 1;
        }
        proof {
            assert forall|oid: Seq<char>|
                #[trigger] self.spec_visible(oid, change_set_id, edit_session_id) && (
                self.spec_resolve(oid, change_set_id, edit_session_id) matches Option::Some(r)
                    && r.kind == kind) implies exists|i2: int|
                0 <= i2 < out@.len() && (#[trigger] out@[i2]).0@ == oid by {
                let m = choose|m: int| 0 <= m < ids@.len() && (#[trigger] ids@[m])@ == oid;
                assert(self.spec_resolve(ids@[m]@, change_set_id, edit_session_id)
                    matches Option::Some(r) && r.kind == kind);
            }
        }
        out
    }
}


impl Store {
    /// An object that resolves in a context is visible in it.
    pub proof fn lemma_resolved_is_visible(
        self,
        oid: Seq<char>,
        cs: Option<u64>,
        es: Option<u64>,
    )
        ensures
            self.spec_resolve(oid, cs, es) is Some ==> self.spec_visible(oid, cs, es),
    {
    }

    /// Whether, in the given context, the object `eid` resolves to an edge
    /// of kind `edge_kind` whose tail is `tail` and whose head entity still
    /// resolves. An edge whose successor is gone is not a successor edge.
    pub open spec fn spec_successor_edge(
        self,
        eid: Seq<char>,
        edge_kind: Seq<char>,
        tail: Seq<char>,
        cs: Option<u64>,
        es: Option<u64>,
    ) -> bool {
        match self.spec_resolve(eid, cs, es) {
            Option::Some(r) => r.edge matches Option::Some(ed) && ed.edge_kind@ == edge_kind
                && ed.tail.object_id@ == tail && self.spec_resolve(ed.head.object_id@, cs, es)
                is Some,
            Option::None => false,
        }
    }

    /// The edges of `edge_kind` leaving `object_id`, resolved under the
    /// given tier context. An edge whose head entity fails to resolve in
    /// this context — deleted in the active session, or never promoted into
    /// it — is dropped from the result rather than failing the call.
    pub fn successors(
        &self,
        edge_kind: &String,
        object_id: &String,
        change_set_id: Option<u64>,
        edit_session_id: Option<u64>,
    ) -> (out: Vec<(String, Record)>)
        requires
            self.wf(),
        ensures
            forall|a: int, b: int| 0 <= a < b < out@.len() ==> out@[a].0@ != out@[b].0@,
            forall|i: int|
                0 <= i < out@.len() ==> self.spec_successor_edge(
                    (#[trigger] out@[i]).0@,
                    edge_kind@,
                    object_id@,
                    change_set_id,
                    edit_session_id,
                ) && self.spec_resolve((out@[i]).0@, change_set_id, edit_session_id)
                    == Option::Some(out@[i].1),
            forall|oid: Seq<char>|
                #[trigger] self.spec_visible(oid, change_set_id, edit_session_id)
                    && self.spec_successor_edge(
                    oid,
                    edge_kind@,
                    object_id@,
                    change_set_id,
                    edit_session_id,
                ) ==> exists|i: int| 0 <= i < out@.len() && (#[trigger] out@[i]).0@ == oid,
    {
        let ids = self.visible_object_ids(change_set_id, edit_session_id);
        let mut out: Vec<(String, Record)> = Vec::new();
        let mut i: usize = 0;
        while i < ids.len()
            invariant
                self.wf(),
                i <= ids@.len(),
                forall|a: int, b: int| 0 <= a < b < ids@.len() ==> ids@[a]@ != ids@[b]@,
                forall|j: int|
                    0 <= j < out@.len() ==> exists|m: int| 0 <= m < i && (#[trigger] out@[j]).0@
                        == (#[trigger] ids@[m])@,
                forall|a: int, b: int| 0 <= a < b < out@.len() ==> out@[a].0@ != out@[b].0@,
                forall|j: int|
                    0 <= j < out@.len() ==> self.spec_successor_edge(
                        (#[trigger] out@[j]).0@,
                        edge_kind@,
                        object_id@,
                        change_set_id,
                        edit_session_id,
                    ) && self.spec_resolve((out@[j]).0@, change_set_id, edit_session_id)
                        == Option::Some(out@[j].1),
                forall|m: int|
                    0 <= m < i && self.spec_successor_edge(
                        (#[trigger] ids@[m])@,
                        edge_kind@,
                        object_id@,
                        change_set_id,
                        edit_session_id,
                    ) ==> exists|j: int| 0 <= j < out@.len() && (#[trigger] out@[j]).0@
                        == ids@[m]@,
            decreases ids@.len() - i,
        {
            match self.resolve(&ids[i], change_set_id, edit_session_id) {
                Result::Ok(rec) => {
                    let mut keep = false;
                    match &rec.edge {
                        Option::Some(ed) => {
                            if ed.edge_kind == *edge_kind && ed.tail.object_id == *object_id {
                                match self.resolve(
                                    &ed.head.object_id,
                                    change_set_id,
                                    edit_session_id,
                                ) {
                                    Result::Ok(_) => {
                                        keep = true;
                                    },
                                    Result::Err(_) => {},
                                }
                            }
                        },
                        Option::None => {},
                    }
                    proof {
                        assert(keep == self.spec_successor_edge(
                            ids@[i as int]@,
                            edge_kind@,
                            object_id@,
                            change_set_id,
                            edit_session_id,
                        ));
                    }
                    if keep {
                        let ghost prev = out@;
                        out.push((ids[i].clone(), rec));
                        proof {
                            assert(out@.len() == prev.len() + 1);
                            assert(forall|j: int| 0 <= j < prev.len() ==> out@[j] == prev[j]);
                            assert((out@[prev.len() as int]).0@ == ids@[i as int]@);
                        }
                    }
                },
                Result::Err(_) => {},
            }
            i = i + 1;
        }
        proof {
            assert forall|oid: Seq<char>|
                #[trigger] self.spec_visible(oid, change_set_id, edit_session_id)
                    && self.spec_successor_edge(
                    oid,
                    edge_kind@,
                    object_id@,
                    change_set_id,
                    edit_session_id,
                ) implies exists|i2: int| 0 <= i2 < out@.len() && (#[trigger] out@[i2]).0@
                == oid by {
                let m = choose|m: int| 0 <= m < ids@.len() && (#[trigger] ids@[m])@ == oid;
                assert(self.spec_successor_edge(
                    ids@[m]@,
                    edge_kind@,
                    object_id@,
                    change_set_id,
                    edit_session_id,
                ));
            }
        }
        out
    }
}

} // verus!
