//! Application-level views over the store: creating an application through
//! a full change-set round trip, label lists for pickers, and the
//! best-effort listing of everything an application includes.

use vstd::prelude::*;
use crate::change_set::{ChangeSet, ChangeSetStatus};
use crate::edit_session::{EditSession, EditSessionStatus};
use crate::record::{Doc, EdgeData, Mutation, Payload, PayloadData, Record, RecordKind, VertexRef};
use crate::store::{Error, Store};

verus! {

/// How many change sets of a workspace are still open, and how many have
/// reached a terminal status.
#[derive(Debug, PartialEq, Eq, Structural)]
pub struct ChangeSetCounts {
    pub open_count: u64,
    pub closed_count: u64,
}

/// What a label points at: a lifecycle row by id, or a versioned object.
#[derive(Debug, PartialEq, Eq)]
pub enum LabelValue {
    Id(u64),
    ObjectId(String),
}

/// One entry of a picker list: a display label and what it points at.
#[derive(Debug, PartialEq, Eq)]
pub struct LabelListItem {
    pub label: String,
    pub value: LabelValue,
}

pub type LabelList = Vec<LabelListItem>;

/// A service entity together with the resources backing it.
#[derive(Debug, PartialEq, Eq)]
pub struct ServiceWithResources {
    pub service: Record,
    pub resources: Vec<Record>,
}

/// One row of the application list.
#[derive(Debug, PartialEq, Eq)]
pub struct ApplicationListEntry {
    pub application: Record,
    pub systems: Vec<Record>,
    pub services_with_resources: Vec<ServiceWithResources>,
    pub change_set_counts: ChangeSetCounts,
}

/// The context panel of an application: its name and the label lists of
/// its systems, open change sets and applied revisions.
#[derive(Debug, PartialEq, Eq)]
pub struct ApplicationContext {
    pub application_name: String,
    pub systems_list: LabelList,
    pub open_change_sets_list: LabelList,
    pub revisions_list: LabelList,
}

/// Everything an application includes, as labels.
#[derive(Debug, PartialEq, Eq)]
pub struct ApplicationEntities {
    pub entity_list: LabelList,
}

/// How many change sets of workspace `w` in the first `n` have Open status
/// equal to `open`.
pub open spec fn count_status(s: Seq<ChangeSet>, w: u64, open: bool) -> int
    decreases s.len(),
{
    if s.len() == 0 {
        0int
    } else {
        count_status(s.drop_last(), w, open) + if s.last().workspace_id == w && ((
        s.last().status is Open) == open) {
            1int
        } else {
            0int
        }
    }
}

/// The label text of a change set: its name, or empty when unnamed.
pub open spec fn spec_cs_label(cs: ChangeSet) -> Seq<char> {
    match cs.name {
        Option::Some(n) => n@,
        Option::None => Seq::<char>::empty(),
    }
}

/// A correct change-set label list: every item points at a change set of
/// the workspace with the wanted status and carries its name, and every
/// such change set appears.
pub open spec fn cs_labels_ok(store: Store, w: u64, open: bool, items: Seq<LabelListItem>) -> bool {
    &&& forall|j: int|
        0 <= j < items.len() ==> ((#[trigger] items[j]).value matches LabelValue::Id(c) && c
            < store.change_sets@.len() && store.change_sets@[c as int].workspace_id == w && ((
        store.change_sets@[c as int].status is Open) == open) && items[j].label@ == spec_cs_label(
            store.change_sets@[c as int],
        ))
    &&& forall|c: int|
        0 <= c < store.change_sets@.len() && (#[trigger] store.change_sets@[c]).workspace_id == w
            && ((store.change_sets@[c].status is Open) == open) ==> exists|j: int|
            0 <= j < items.len() && (#[trigger] items[j]).value == LabelValue::Id(c as u64)
}

impl Store {
    /// Count a workspace's change sets by status.
    pub fn change_set_counts(&self, workspace_id: u64) -> (r: ChangeSetCounts)
        ensures
            r.open_count == count_status(self.change_sets@, workspace_id, true),
            r.closed_count == count_status(self.change_sets@, workspace_id, false),
    {
        let n = self.change_sets.len();
        let mut open_count: u64 = 0;
        let mut closed_count: u64 = 0;
        let mut i: usize = 0;
        while i < n
            invariant
                n == self.change_sets@.len(),
                i <= n,
                open_count <= i,
                closed_count <= i,
                open_count == count_status(self.change_sets@.take(i as int), workspace_id, true),
                closed_count == count_status(
                    self.change_sets@.take(i as int),
                    workspace_id,
                    false,
                ),
            decreases n - i,
        {
            proof {
                assert(self.change_sets@.take(i as int + 1).drop_last() =~= self.change_sets@.take(
                    i as int,
                ));
                assert(self.change_sets@.take(i as int + 1).last() == self.change_sets@[i as int]);
            }
            let cs = &self.change_sets[i];
            if cs.workspace_id == workspace_id {
                if matches!(cs.status, ChangeSetStatus::Open) {
                    open_count = open_count + 1;
                } else {
                    closed_count = closed_count + 1;
                }
            }
            i = i + 1;
        }
        proof {
            assert(self.change_sets@.take(n as int) =~= self.change_sets@);
        }
        ChangeSetCounts { open_count, closed_count }
    }

    /// The label list of a workspace's change sets with the given openness.
    pub fn change_set_labels(&self, workspace_id: u64, open: bool) -> (items: Vec<LabelListItem>)
        requires
            self.wf(),
        ensures
            cs_labels_ok(*self, workspace_id, open, items@),
    {
        let n = self.change_sets.len();
        let mut items: Vec<LabelListItem> = Vec::new();
        let mut i: usize = 0;
        while i < n
            invariant
                self.wf(),
                n == self.change_sets@.len(),
                i <= n,
                forall|j: int|
                    0 <= j < items@.len() ==> ((#[trigger] items@[j]).value matches LabelValue::Id(
                        c,
                    ) && c < i && self.change_sets@[c as int].workspace_id == workspace_id && ((
                    self.change_sets@[c as int].status is Open) == open) && items@[j].label@
                        == spec_cs_label(self.change_sets@[c as int])),
                forall|c: int|
                    0 <= c < i && (#[trigger] self.change_sets@[c]).workspace_id == workspace_id
                        && ((self.change_sets@[c].status is Open) == open) ==> exists|j: int|
                        0 <= j < items@.len() && (#[trigger] items@[j]).value == LabelValue::Id(
                            c as u64,
                        ),
            decreases n - i,
        {
            let cs = &self.change_sets[i];
            let is_open = matches!(cs.status, ChangeSetStatus::Open);
            if cs.workspace_id == workspace_id && is_open == open {
                let label = match &cs.name {
                    Option::Some(nm) => nm.clone(),
                    Option::None => String::new(),
                };
                let ghost prev = items@;
                items.push(LabelListItem { label, value: LabelValue::Id(cs.id) });
                proof {
                    assert(items@.len() == prev.len() + 1);
                    assert(forall|j: int| 0 <= j < prev.len() ==> items@[j] == prev[j]);
                    assert(cs.id == i as u64);
                    assert((items@[prev.len() as int]).value == LabelValue::Id(i as u64));
                }
            }
            i = i + 1;
        }
        items
    }

    /// The label list of the Head-tier system entities.
    pub fn system_labels(&self) -> (items: Vec<LabelListItem>)
        requires
            self.wf(),
        ensures
            system_labels_ok(*self, items@),
    {
        let ents = self.list(RecordKind::Entity, Option::None, Option::None);
        let mut items: Vec<LabelListItem> = Vec::new();
        let mut i: usize = 0;
        while i < ents.len()
            invariant
                self.wf(),
                i <= ents@.len(),
                forall|a: int, b: int| 0 <= a < b < ents@.len() ==> ents@[a].0@ != ents@[b].0@,
                forall|j: int|
                    0 <= j < ents@.len() ==> self.spec_resolve(
                        (#[trigger] ents@[j]).0@,
                        Option::None,
                        Option::None,
                    ) == Option::Some(ents@[j].1) && ents@[j].1.kind == RecordKind::Entity,
                forall|j: int|
                    0 <= j < items@.len() ==> ((#[trigger] items@[j]).value
                        matches LabelValue::ObjectId(o) && (self.spec_resolve(
                        o@,
                        Option::None,
                        Option::None,
                    ) matches Option::Some(r) && r.kind is Entity && r.payload.data is System
                        && items@[j].label@ == r.payload.name@)),
                forall|m: int|
                    0 <= m < i && (#[trigger] ents@[m]).1.payload.data is System ==> exists|j: int|
                        0 <= j < items@.len() && ((#[trigger] items@[j]).value
                            matches LabelValue::ObjectId(o) && o@ == ents@[m].0@),
            decreases ents@.len() - i,
        {
            let entry = &ents[i];
            let keep = matches!(entry.1.payload.data, PayloadData::System);
            if keep {
                let ghost prev = items@;
                items.push(
                    LabelListItem {
                        label: entry.1.payload.name.clone(),
                        value: LabelValue::ObjectId(entry.0.clone()),
                    },
                );
                proof {
                    assert(items@.len() == prev.len() + 1);
                    assert(forall|j: int| 0 <= j < prev.len() ==> items@[j] == prev[j]);
                    assert((items@[prev.len() as int]).value matches LabelValue::ObjectId(o) && o@
                        == ents@[i as int].0@);
                }
            }
            i = i + 1;
        }
        proof {
            assert forall|oid: Seq<char>|
                #[trigger] self.spec_visible(oid, Option::None, Option::None) && (
                self.spec_resolve(oid, Option::None, Option::None) matches Option::Some(r)
                    && r.kind is Entity && r.payload.data is System) implies exists|j: int|
                0 <= j < items@.len() && ((#[trigger] items@[j]).value
                    matches LabelValue::ObjectId(o) && o@ == oid) by {
                let m = choose|m: int| 0 <= m < ents@.len() && (#[trigger] ents@[m]).0@ == oid;
                assert(ents@[m].1.payload.data is System);
            }
        }
        items
    }
}

/// A correct system label list: every item points at a Head-resolvable
/// system entity and carries its name, and every such system appears.
pub open spec fn system_labels_ok(store: Store, items: Seq<LabelListItem>) -> bool {
    &&& forall|j: int|
        0 <= j < items.len() ==> ((#[trigger] items[j]).value matches LabelValue::ObjectId(o) && (
        store.spec_resolve(o@, Option::None, Option::None) matches Option::Some(r) && r.kind
            is Entity && r.payload.data is System && items[j].label@ == r.payload.name@))
    &&& forall|oid: Seq<char>|
        #[trigger] store.spec_visible(oid, Option::None, Option::None) && (store.spec_resolve(
            oid,
            Option::None,
            Option::None,
        ) matches Option::Some(r) && r.kind is Entity && r.payload.data is System) ==> exists|
            j: int,
        |
            0 <= j < items.len() && ((#[trigger] items[j]).value matches LabelValue::ObjectId(o)
                && o@ == oid)
}

/// The context panel for an application: its Head name, the system labels,
/// and the open and closed change sets of the workspace.
pub fn context(store: &Store, application_id: &String, workspace_id: u64) -> (r: Result<
    ApplicationContext,
    Error,
>)
    requires
        store.wf(),
    ensures
        match r {
            Result::Ok(ctx) => (store.spec_resolve(application_id@, Option::None, Option::None)
                matches Option::Some(app) && ctx.application_name == app.payload.name)
                && system_labels_ok(*store, ctx.systems_list@) && cs_labels_ok(
                *store,
                workspace_id,
                true,
                ctx.open_change_sets_list@,
            ) && cs_labels_ok(*store, workspace_id, false, ctx.revisions_list@),
            Result::Err(e) => e == Error::NotFound && store.spec_resolve(
                application_id@,
                Option::None,
                Option::None,
            ) is None,
        },
{
    let application = match store.resolve(application_id, Option::None, Option::None) {
        Result::Ok(app) => app,
        Result::Err(e) => {
            return Result::Err(e);
        },
    };
    let systems_list = store.system_labels();
    let open_change_sets_list = store.change_set_labels(workspace_id, true);
    let revisions_list = store.change_set_labels(workspace_id, false);
    Result::Ok(
        ApplicationContext {
            application_name: application.payload.name,
            systems_list,
            open_change_sets_list,
            revisions_list,
        },
    )
}

/// Whether, in the given context, `head` is the head vertex of some
/// visible "Includes" successor edge of `tail`.
pub open spec fn is_included_head(
    store: Store,
    tail: Seq<char>,
    cs: Option<u64>,
    es: Option<u64>,
    head: Seq<char>,
) -> bool {
    exists|eid: Seq<char>|
        #[trigger] store.spec_visible(eid, cs, es) && store.spec_successor_edge(
            eid,
            "Includes"@,
            tail,
            cs,
            es,
        ) && (store.spec_resolve(eid, cs, es) matches Option::Some(er) && (er.edge
            matches Option::Some(ed) && ed.head.object_id@ == head))
}

/// A correct included-entity label list for tail `tail`: every item is the
/// head vertex of some visible "Includes" successor edge of `tail`,
/// resolves in the context, and carries the resolved entity's name; and
/// every "Includes" successor edge of `tail` whose head still resolves
/// contributes its head entity.
pub open spec fn included_labels_ok(
    store: Store,
    tail: Seq<char>,
    cs: Option<u64>,
    es: Option<u64>,
    items: Seq<LabelListItem>,
) -> bool {
    &&& forall|j: int|
        0 <= j < items.len() ==> ((#[trigger] items[j]).value matches LabelValue::ObjectId(o) && (
        store.spec_resolve(o@, cs, es) matches Option::Some(r) && items[j].label@
            == r.payload.name@) && is_included_head(store, tail, cs, es, o@))
    &&& forall|eid: Seq<char>|
        #[trigger] store.spec_visible(eid, cs, es) && store.spec_successor_edge(
            eid,
            "Includes"@,
            tail,
            cs,
            es,
        ) ==> (store.spec_resolve(eid, cs, es) matches Option::Some(er) && (er.edge
            matches Option::Some(ed) && exists|j: int|
            0 <= j < items.len() && ((#[trigger] items[j]).value matches LabelValue::ObjectId(o)
                && o@ == ed.head.object_id@)))
}

/// Every entity the application includes, in the given tier context, as a
/// label list. An included entity that no longer resolves there — deleted
/// in the active edit session, or never promoted — is omitted, not an
/// error.
pub fn all_entities(
    store: &Store,
    application_id: &String,
    change_set_id: Option<u64>,
    edit_session_id: Option<u64>,
) -> (r: Result<ApplicationEntities, Error>)
    requires
        store.wf(),
    ensures
        match r {
            Result::Ok(ae) => store.spec_resolve(application_id@, change_set_id, edit_session_id)
                is Some && included_labels_ok(
                *store,
                application_id@,
                change_set_id,
                edit_session_id,
                ae.entity_list@,
            ),
            Result::Err(e) => e == Error::NotFound && store.spec_resolve(
                application_id@,
                change_set_id,
                edit_session_id,
            ) is None,
        },
{
    match store.resolve(application_id, change_set_id, edit_session_id) {
        Result::Ok(_) => {},
        Result::Err(e) => {
            return Result::Err(e);
        },
    }
    let includes: String = "Includes".to_owned();
    let succ = store.successors(&includes, application_id, change_set_id, edit_session_id);
    let mut entity_list: Vec<LabelListItem> = Vec::new();
    let mut i: usize = 0;
    while i < succ.len()
        invariant
            store.wf(),
            i <= succ@.len(),
            includes@ == "Includes"@,
            forall|j: int|
                0 <= j < succ@.len() ==> store.spec_successor_edge(
                    (#[trigger] succ@[j]).0@,
                    "Includes"@,
                    application_id@,
                    change_set_id,
                    edit_session_id,
                ) && store.spec_resolve((succ@[j]).0@, change_set_id, edit_session_id)
                    == Option::Some(succ@[j].1),
            forall|j: int|
                0 <= j < entity_list@.len() ==> ((#[trigger] entity_list@[j]).value
                    matches LabelValue::ObjectId(o) && (store.spec_resolve(
                    o@,
                    change_set_id,
                    edit_session_id,
                ) matches Option::Some(r) && entity_list@[j].label@ == r.payload.name@)
                    && is_included_head(
                    *store,
                    application_id@,
                    change_set_id,
                    edit_session_id,
                    o@,
                )),
            forall|m: int|
                0 <= m < i ==> ((#[trigger] succ@[m]).1.edge matches Option::Some(ed) && exists|
                    j: int,
                |
                    0 <= j < entity_list@.len() && ((#[trigger] entity_list@[j]).value
                        matches LabelValue::ObjectId(o) && o@ == ed.head.object_id@)),
        decreases succ@.len() - i,
    {
        let edge_rec = &succ[i].1;
        match &edge_rec.edge {
            Option::Some(ed) => {
                match store.resolve(&ed.head.object_id, change_set_id, edit_session_id) {
                    Result::Ok(head_entity) => {
                        let ghost prev = entity_list@;
                        entity_list.push(
                            LabelListItem {
                                label: head_entity.payload.name,
                                value: LabelValue::ObjectId(ed.head.object_id.clone()),
                            },
                        );
                        proof {
                            assert(entity_list@.len() == prev.len() + 1);
                            assert(forall|j: int|
                                0 <= j < prev.len() ==> entity_list@[j] == prev[j]);
                            assert((entity_list@[prev.len() as int]).value
                                matches LabelValue::ObjectId(o) && o@ == ed.head.object_id@);
                            store.lemma_resolved_is_visible(
                                succ@[i as int].0@,
                                change_set_id,
                                edit_session_id,
                            );
                            assert(is_included_head(
                                *store,
                                application_id@,
                                change_set_id,
                                edit_session_id,
                                ed.head.object_id@,
                            )) by {
                                assert(store.spec_visible(
                                    succ@[i as int].0@,
                                    change_set_id,
                                    edit_session_id,
                                ) && store.spec_successor_edge(
                                    succ@[i as int].0@,
                                    "Includes"@,
                                    application_id@,
                                    change_set_id,
                                    edit_session_id,
                                ) && (store.spec_resolve(
                                    succ@[i as int].0@,
                                    change_set_id,
                                    edit_session_id,
                                ) matches Option::Some(er) && (er.edge matches Option::Some(ed2)
                                    && ed2.head.object_id@ == ed.head.object_id@)));
                            }
                        }
                    },
                    Result::Err(_) => {
                        proof {
                            assert(store.spec_successor_edge(
                                succ@[i as int].0@,
                                "Includes"@,
                                application_id@,
                                change_set_id,
                                edit_session_id,
                            ));
                            assert(false);
                        }
                    },
                }
            },
            Option::None => {
                proof {
                    assert(store.spec_successor_edge(
                        succ@[i as int].0@,
                        "Includes"@,
                        application_id@,
                        change_set_id,
                        edit_session_id,
                    ));
                    assert(false);
                }
            },
        }
        i = i + 1;
    }
    proof {
        assert forall|eid: Seq<char>|
            #[trigger] store.spec_visible(eid, change_set_id, edit_session_id)
                && store.spec_successor_edge(
                eid,
                "Includes"@,
                application_id@,
                change_set_id,
                edit_session_id,
            ) implies (store.spec_resolve(eid, change_set_id, edit_session_id)
            matches Option::Some(er) && (er.edge matches Option::Some(ed) && exists|j: int|
            0 <= j < entity_list@.len() && ((#[trigger] entity_list@[j]).value
                matches LabelValue::ObjectId(o) && o@ == ed.head.object_id@))) by {
            let m = choose|m: int| 0 <= m < succ@.len() && (#[trigger] succ@[m]).0@ == eid;
            assert(store.spec_resolve(succ@[m].0@, change_set_id, edit_session_id)
                == Option::Some(succ@[m].1));
        }
    }
    Result::Ok(ApplicationEntities { entity_list })
}

/// Whether, at Head, `oid` names the system entity called "production".
pub open spec fn is_production_system(store: Store, oid: Seq<char>) -> bool {
    &&& store.spec_visible(oid, Option::None, Option::None)
    &&& (store.spec_resolve(oid, Option::None, Option::None) matches Option::Some(r) && r.kind
        is Entity && r.payload.data is System && r.payload.name@ == "production"@)
}

/// The object id under which `create` files the edge assigning a new
/// application to its system.
pub open spec fn spec_assignment_id(name: Seq<char>) -> Seq<char> {
    "system-assignment:"@ + name
}

/// Create an application entity through a full round trip: open a change
/// set and an edit session, draft the application and an "Includes" edge
/// assigning it to the system named "production", save the session, and
/// apply the change set, so both are visible at Head. Fails with
/// `NotFound` — touching nothing — when Head holds no production system.
///
/// The application's name doubles as its object id: creating a second
/// application under the same name overwrites the first's Head row, as the
/// contract states. Creation time is the caller's; the core has no clock.
/// The returned change-set counts are the workspace's real counts, not a
/// fixed placeholder.
pub fn create(store: &mut Store, application_name: String, workspace_id: u64, created_at: u64) -> (r:
    Result<ApplicationListEntry, Error>)
    requires
        old(store).wf(),
    ensures
        final(store).wf(),
        match r {
            Result::Ok(entry) => {
                &&& entry.application == (Record {
                    kind: RecordKind::Entity,
                    payload: Payload { name: application_name, data: PayloadData::Application },
                    edge: Option::None,
                })
                &&& entry.systems@.len() == 0
                &&& entry.services_with_resources@.len() == 0
                &&& entry.change_set_counts.open_count == count_status(
                    final(store).change_sets@,
                    workspace_id,
                    true,
                )
                &&& entry.change_set_counts.closed_count == count_status(
                    final(store).change_sets@,
                    workspace_id,
                    false,
                )
                &&& final(store).spec_resolve(application_name@, Option::None, Option::None)
                    == Option::Some(entry.application)
                &&& (final(store).spec_resolve(
                    spec_assignment_id(application_name@),
                    Option::None,
                    Option::None,
                ) matches Option::Some(e) && e.kind is Edge && (e.edge matches Option::Some(ed)
                    && ed.edge_kind@ == "Includes"@ && ed.head.object_id@ == application_name@
                    && is_production_system(*old(store), ed.tail.object_id@)))
                &&& forall|oid: Seq<char>|
                    oid != application_name@ && oid != spec_assignment_id(application_name@) ==> (
                    #[trigger] final(store).head_docs().contains_key(oid)
                        == old(store).head_docs().contains_key(oid) && (old(
                        store,
                    ).head_docs().contains_key(oid) ==> final(store).head_docs()[oid] == old(
                        store,
                    ).head_docs()[oid]))
                &&& final(store).change_sets@ == old(store).change_sets@.push(
                    ChangeSet {
                        id: old(store).change_sets@.len() as u64,
                        name: Option::None,
                        workspace_id,
                        status: ChangeSetStatus::Applied,
                        created_at,
                    },
                )
                &&& final(store).edit_sessions@ == old(store).edit_sessions@.push(
                    EditSession {
                        id: old(store).edit_sessions@.len() as u64,
                        change_set_id: old(store).change_sets@.len() as u64,
                        workspace_id,
                        status: EditSessionStatus::Saved,
                    },
                )
                &&& final(store).cs_docs(old(store).change_sets@.len() as u64) == Map::<
                    Seq<char>,
                    Doc,
                >::empty()
                &&& final(store).es_docs(old(store).edit_sessions@.len() as u64) == Map::<
                    Seq<char>,
                    Doc,
                >::empty()
                &&& forall|c2: u64|
                    c2 != old(store).change_sets@.len() as u64
                        ==> #[trigger] final(store).cs_docs(c2) == old(store).cs_docs(c2)
                &&& forall|s2: u64|
                    s2 != old(store).edit_sessions@.len() as u64
                        ==> #[trigger] final(store).es_docs(s2) == old(store).es_docs(s2)
                &&& final(store).pending@.len() >= old(store).pending@.len()
                &&& final(store).pending@.take(old(store).pending@.len() as int) == old(
                    store,
                ).pending@
            },
            Result::Err(e) => {
                &&& e == Error::NotFound
                &&& *final(store) == *old(store)
                &&& forall|oid: Seq<char>| !is_production_system(*old(store), oid)
            },
        },
{
    let ghost s0 = *store;
    // Find the production system at Head.
    let production: String = "production".to_owned();
    let ents = store.list(RecordKind::Entity, Option::None, Option::None);
    let mut found: Option<String> = Option::None;
    let mut m: usize = 0;
    while m < ents.len()
        invariant
            store.wf(),
            *store == s0,
            m <= ents@.len(),
            production@ == "production"@,
            forall|j: int|
                0 <= j < ents@.len() ==> store.spec_resolve(
                    (#[trigger] ents@[j]).0@,
                    Option::None,
                    Option::None,
                ) == Option::Some(ents@[j].1) && ents@[j].1.kind == RecordKind::Entity,
            found matches Option::Some(o) ==> is_production_system(s0, o@),
            found is None ==> forall|j: int|
                0 <= j < m ==> !((#[trigger] ents@[j]).1.payload.data is System
                    && ents@[j].1.payload.name@ == "production"@),
        decreases ents@.len() - m,
    {
        if found.is_none() {
            let entry = &ents[m];
            let is_sys = matches!(entry.1.payload.data, PayloadData::System);
            if is_sys && entry.1.payload.name == production {
                proof {
                    store.lemma_resolved_is_visible(
                        ents@[m as int].0@,
                        Option::None,
                        Option::None,
                    );
                }
                found = Option::Some(entry.0.clone());
            }
        }
        m = m + 1;
    }
    let system_id = match found {
        Option::Some(o) => o,
        Option::None => {
            proof {
                assert forall|oid: Seq<char>| !is_production_system(s0, oid) by {
                    if is_production_system(s0, oid) {
                        let j = choose|j: int|
                            0 <= j < ents@.len() && (#[trigger] ents@[j]).0@ == oid;
                        assert(ents@[j].1.payload.data is System && ents@[j].1.payload.name@
                            == "production"@);
                    }
                }
            }
            return Result::Err(Error::NotFound);
        },
    };

    let mut change_set = ChangeSet::new(store, Option::None, workspace_id, created_at);
    let ghost s1 = *store;
    proof {
        vstd::std_specs::vec::axiom_spec_len(&s0.change_sets);
        assert forall|oid: Seq<char>| !(#[trigger] s1.cs_docs(change_set.id).contains_key(
            oid,
        )) by {
            if s1.cs_docs(change_set.id).contains_key(oid) {
                assert(s0.table@.contains_key((
                    crate::table::Tier::ChangeSet(change_set.id),
                    oid,
                )));
            }
        }
    }
    let mut edit_session = match EditSession::new(store, change_set.id, workspace_id) {
        Result::Ok(es) => es,
        Result::Err(_) => vstd::pervasive::unreached(),
    };
    let ghost s2 = *store;
    proof {
        vstd::std_specs::vec::axiom_spec_len(&s1.edit_sessions);
        assert forall|oid: Seq<char>| !(#[trigger] s2.es_docs(edit_session.id).contains_key(
            oid,
        )) by {
            if s2.es_docs(edit_session.id).contains_key(oid) {
                assert(s1.table@.contains_key((
                    crate::table::Tier::EditSession(edit_session.id),
                    oid,
                )));
            }
        }
    }

    // Draft the application itself.
    let draft = Record {
        kind: RecordKind::Entity,
        payload: Payload { name: application_name.clone(), data: PayloadData::Application },
        edge: Option::None,
    };
    let application = match store.write(
        &application_name,
        edit_session.id,
        Mutation::Replace(draft),
    ) {
        Result::Ok(Option::Some(rec)) => rec,
        _ => vstd::pervasive::unreached(),
    };
    let ghost s3 = *store;

    // Draft the edge assigning the application to the production system.
    let assignment_id: String = "system-assignment:".to_owned().concat(application_name.as_str());
    proof {
        assert(assignment_id@ == spec_assignment_id(application_name@));
        reveal_strlit("system-assignment:");
        assert(assignment_id@.len() >= 18);
        assert(application_name@ != assignment_id@);
    }
    let assignment = Record {
        kind: RecordKind::Edge,
        payload: Payload {
            name: assignment_id.clone(),
            data: PayloadData::Extension {
                kind: "systemAssignment".to_owned(),
                document: String::new(),
            },
        },
        edge: Option::Some(
            EdgeData {
                edge_kind: "Includes".to_owned(),
                tail: VertexRef { object_id: system_id },
                head: VertexRef { object_id: application_name.clone() },
            },
        ),
    };
    let edge_record = match store.write(
        &assignment_id,
        edit_session.id,
        Mutation::Replace(assignment),
    ) {
        Result::Ok(Option::Some(rec)) => rec,
        _ => vstd::pervasive::unreached(),
    };
    let ghost s4 = *store;
    proof {
        assert(s4.es_docs(edit_session.id) == Map::<Seq<char>, Doc>::empty().insert(
            application_name@,
            Doc::Live(application),
        ).insert(assignment_id@, Doc::Live(edge_record)));
    }

    match edit_session.save_session(store) {
        Result::Ok(()) => {},
        Result::Err(_) => vstd::pervasive::unreached(),
    }
    let ghost s5 = *store;
    proof {
        assert(s5.cs_docs(change_set.id) =~= Map::<Seq<char>, Doc>::empty().insert(
            application_name@,
            Doc::Live(application),
        ).insert(assignment_id@, Doc::Live(edge_record)));
    }
    match change_set.apply(store) {
        Result::Ok(()) => {},
        Result::Err(_) => vstd::pervasive::unreached(),
    }
    proof {
        let c = change_set.id;
        let s = edit_session.id;
        let name = application_name@;
        let aid = spec_assignment_id(application_name@);
        assert(store.head_docs().contains_key(name) && store.head_docs()[name] == Doc::Live(
            application,
        ));
        assert(store.head_docs().contains_key(aid) && store.head_docs()[aid] == Doc::Live(
            edge_record,
        ));
        assert(s5.head_docs() == s0.head_docs());
        assert forall|oid: Seq<char>| oid != name && oid != aid implies #[trigger] store.head_docs().contains_key(
            oid,
        ) == s0.head_docs().contains_key(oid) && (s0.head_docs().contains_key(oid)
            ==> store.head_docs()[oid] == s0.head_docs()[oid]) by {
            assert(!s5.cs_docs(c).contains_key(oid));
        }
        // Lifecycle rows: the pushed pair turned terminal, nothing else moved.
        assert(s5.change_sets@ == s0.change_sets@.push(
            ChangeSet {
                id: s0.change_sets@.len() as u64,
                name: Option::None,
                workspace_id,
                status: ChangeSetStatus::Open,
                created_at,
            },
        ));
        assert(store.change_sets@ =~= s0.change_sets@.push(
            ChangeSet {
                id: s0.change_sets@.len() as u64,
                name: Option::None,
                workspace_id,
                status: ChangeSetStatus::Applied,
                created_at,
            },
        ));
        vstd::std_specs::vec::axiom_spec_len(&s0.edit_sessions);
        assert forall|i: int| 0 <= i < s5.edit_sessions@.len() implies #[trigger] store.edit_sessions@[i]
            == s5.edit_sessions@[i] by {
            assert(!crate::change_set::terminated_by_apply(s5, c, i));
        }
        assert(store.edit_sessions@ =~= s0.edit_sessions@.push(
            EditSession {
                id: s0.edit_sessions@.len() as u64,
                change_set_id: s0.change_sets@.len() as u64,
                workspace_id,
                status: EditSessionStatus::Saved,
            },
        ));
        // Tier frames back to the start.
        assert(store.cs_docs(c) == Map::<Seq<char>, Doc>::empty());
        assert(store.es_docs(s) == Map::<Seq<char>, Doc>::empty()) by {
            assert(!crate::change_set::terminated_by_apply(s5, c, s as int));
            assert(s5.es_docs(s) =~= Map::<Seq<char>, Doc>::empty());
        }
        assert forall|c2: u64| c2 != c implies #[trigger] store.cs_docs(c2) == s0.cs_docs(c2) by {
            assert(store.cs_docs(c2) == s5.cs_docs(c2));
            assert(s5.cs_docs(c2) == s4.cs_docs(c2));
            assert(s4.cs_docs(c2) == s3.cs_docs(c2));
            assert(s3.cs_docs(c2) == s2.cs_docs(c2));
        }
        assert forall|sx: u64| sx != s implies #[trigger] store.es_docs(sx) == s0.es_docs(sx) by {
            assert(!crate::change_set::terminated_by_apply(s5, c, sx as int));
            assert(store.es_docs(sx) == s5.es_docs(sx));
            assert(s5.es_docs(sx) == s4.es_docs(sx));
            assert(s4.es_docs(sx) == s3.es_docs(sx));
            assert(s3.es_docs(sx) == s2.es_docs(sx));
        }
    }
    proof {
        assert(s2.pending@ == s0.pending@);
        Store::lemma_pending_prefix_trans(s2.pending@, s3.pending@, s4.pending@);
        Store::lemma_pending_prefix_trans(s0.pending@, s4.pending@, s5.pending@);
        Store::lemma_pending_prefix_trans(s0.pending@, s5.pending@, store.pending@);
    }
    let change_set_counts = store.change_set_counts(workspace_id);
    Result::Ok(
        ApplicationListEntry {
            application,
            systems: Vec::new(),
            services_with_resources: Vec::new(),
            change_set_counts,
        },
    )
}

/// Whether `rec` is what some visible object resolves to at Head.
pub open spec fn is_head_record(store: Store, rec: Record) -> bool {
    exists|oid: Seq<char>|
        #[trigger] store.spec_visible(oid, Option::None, Option::None) && store.spec_resolve(
            oid,
            Option::None,
            Option::None,
        ) == Option::Some(rec)
}

/// A correct application list: every entry is the resolved Head record of
/// some visible object — an application entity — with empty summary lists
/// and the workspace's change-set counts, and every application at Head
/// appears.
pub open spec fn application_list_ok(store: Store, w: u64, entries: Seq<ApplicationListEntry>) -> bool {
    &&& forall|j: int|
        0 <= j < entries.len() ==> is_head_record(store, (#[trigger] entries[j]).application)
    &&& forall|j: int|
        0 <= j < entries.len() ==> ((#[trigger] entries[j]).application.kind is Entity
            && entries[j].application.payload.data is Application && entries[j].systems@.len() == 0
            && entries[j].services_with_resources@.len() == 0
            && entries[j].change_set_counts.open_count == count_status(store.change_sets@, w, true)
            && entries[j].change_set_counts.closed_count == count_status(
            store.change_sets@,
            w,
            false,
        ))
    &&& forall|oid: Seq<char>|
        #[trigger] store.spec_visible(oid, Option::None, Option::None) && (store.spec_resolve(
            oid,
            Option::None,
            Option::None,
        ) matches Option::Some(r) && r.kind is Entity && r.payload.data is Application) ==> exists|
            j: int,
        |
            0 <= j < entries.len() && (#[trigger] entries[j]).application == store.spec_resolve(
                oid,
                Option::None,
                Option::None,
            )->Some_0
}

/// List the applications visible at Head, each with the workspace's real
/// change-set counts (not a fixed placeholder).
pub fn list(store: &Store, workspace_id: u64) -> (entries: Vec<ApplicationListEntry>)
    requires
        store.wf(),
    ensures
        application_list_ok(*store, workspace_id, entries@),
{
    let ents = store.list(RecordKind::Entity, Option::None, Option::None);
    let mut entries: Vec<ApplicationListEntry> = Vec::new();
    let mut i: usize = 0;
    while i < ents.len()
        invariant
            store.wf(),
            i <= ents@.len(),
            forall|a: int, b: int| 0 <= a < b < ents@.len() ==> ents@[a].0@ != ents@[b].0@,
            forall|j: int|
                0 <= j < ents@.len() ==> store.spec_resolve(
                    (#[trigger] ents@[j]).0@,
                    Option::None,
                    Option::None,
                ) == Option::Some(ents@[j].1) && ents@[j].1.kind == RecordKind::Entity,
            forall|j: int|
                0 <= j < entries@.len() ==> is_head_record(
                    *store,
                    (#[trigger] entries@[j]).application,
                ),
            forall|j: int|
                0 <= j < entries@.len() ==> ((#[trigger] entries@[j]).application.kind is Entity
                    && entries@[j].application.payload.data is Application
                    && entries@[j].systems@.len() == 0
                    && entries@[j].services_with_resources@.len() == 0
                    && entries@[j].change_set_counts.open_count == count_status(
                    store.change_sets@,
                    workspace_id,
                    true,
                ) && entries@[j].change_set_counts.closed_count == count_status(
                    store.change_sets@,
                    workspace_id,
                    false,
                )),
            forall|m: int|
                0 <= m < i && (#[trigger] ents@[m]).1.payload.data is Application ==> exists|
                    j: int,
                |
                    0 <= j < entries@.len() && (#[trigger] entries@[j]).application == ents@[m].1,
        decreases ents@.len() - i,
    {
        let entry = &ents[i];
        let keep = matches!(entry.1.payload.data, PayloadData::Application);
        if keep {
            let ghost prev = entries@;
            let change_set_counts = store.change_set_counts(workspace_id);
            entries.push(
                ApplicationListEntry {
                    application: entry.1.clone(),
                    systems: Vec::new(),
                    services_with_resources: Vec::new(),
                    change_set_counts,
                },
            );
            proof {
                assert(entries@.len() == prev.len() + 1);
                assert(forall|j: int| 0 <= j < prev.len() ==> entries@[j] == prev[j]);
                assert((entries@[prev.len() as int]).application == ents@[i as int].1);
                store.lemma_resolved_is_visible(ents@[i as int].0@, Option::None, Option::None);
                assert(is_head_record(*store, (entries@[prev.len() as int]).application)) by {
                    assert(store.spec_visible(ents@[i as int].0@, Option::None, Option::None)
                        && store.spec_resolve(ents@[i as int].0@, Option::None, Option::None)
                        == Option::Some((entries@[prev.len() as int]).application));
                }
            }
        }
        i = i + 1;
    }
    proof {
        assert forall|oid: Seq<char>|
            #[trigger] store.spec_visible(oid, Option::None, Option::None) && (store.spec_resolve(
                oid,
                Option::None,
                Option::None,
            ) matches Option::Some(r) && r.kind is Entity && r.payload.data is Application)
            implies exists|j: int|
            0 <= j < entries@.len() && (#[trigger] entries@[j]).application == store.spec_resolve(
                oid,
                Option::None,
                Option::None,
            )->Some_0 by {
            let m = choose|m: int| 0 <= m < ents@.len() && (#[trigger] ents@[m]).0@ == oid;
            assert(ents@[m].1.payload.data is Application);
        }
    }
    entries
}

} // verus!
