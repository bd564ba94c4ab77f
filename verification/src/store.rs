//! The versioned entity store: one transactional mutation surface holding
//! every record row across the three tiers, the change-set and edit-session
//! lifecycle rows, and the queue of change notifications waiting to be
//! published after commit.

use vstd::prelude::*;
use crate::change_set::ChangeSet;
use crate::edit_session::{EditSession, EditSessionStatus};
use crate::record::{Doc, Mutation, Payload, Record};
use crate::table::{tier_docs, RowTable, Tier};

verus! {

/// The failure taxonomy. `NotFound`: the object is absent at every tier
/// visible in the given context. `InvalidState`: a lifecycle operation was
/// invoked on a change set or session not in the required status.
/// `Conflict`: a concurrent save or apply won the race between the caller's
/// read and this transition. `Persistence`: the backing transaction failed.
/// `Serialization`: a payload does not fit its declared kind.
#[derive(Clone, Copy, Debug, PartialEq, Eq, Structural)]
pub enum Error {
    NotFound,
    InvalidState,
    Conflict,
    Persistence,
    Serialization,
}

impl Error {
    /// A short description of the failure.
    pub fn message(&self) -> (r: &'static str)
    {
        match self {
            Error::NotFound => "object not found at any visible tier",
            Error::InvalidState => "lifecycle operation on a row not in the required status",
            Error::Conflict => "a concurrent transition won the race",
            Error::Persistence => "the backing transaction failed",
            Error::Serialization => "payload does not fit its declared kind",
        }
    }
}

/// One change notification: which row changed, and what it now holds (a
/// tombstone standing for a deletion). Queued during the transaction,
/// published by the caller only after the transaction durably commits.
#[derive(Debug, PartialEq, Eq)]
pub struct ChangeEvent {
    pub tier: Tier,
    pub object_id: String,
    pub doc: Doc,
}

/// What a stored document resolves to: a live record, or nothing if the
/// first applicable tier holds a tombstone.
pub open spec fn doc_to_resolved(d: Doc) -> Option<Record> {
    match d {
        Doc::Live(r) => Option::Some(r),
        Doc::Tombstone => Option::None,
    }
}

/// The store.
pub struct Store {
    pub table: RowTable,
    pub change_sets: Vec<ChangeSet>,
    pub edit_sessions: Vec<EditSession>,
    pub pending: Vec<ChangeEvent>,
}

impl Store {
    /// The Head tier, keyed by object id.
    pub open spec fn head_docs(self) -> Map<Seq<char>, Doc> {
        tier_docs(self.table@, Tier::Head)
    }

    /// One change set's tier, keyed by object id.
    pub open spec fn cs_docs(self, c: u64) -> Map<Seq<char>, Doc> {
        tier_docs(self.table@, Tier::ChangeSet(c))
    }

    /// One edit session's tier, keyed by object id.
    pub open spec fn es_docs(self, s: u64) -> Map<Seq<char>, Doc> {
        tier_docs(self.table@, Tier::EditSession(s))
    }

    /// The store's well-formedness. Row keys are unique; stored documents
    /// are well formed; Head never holds a tombstone; lifecycle rows sit at
    /// the index their id names; a session's change set exists; an Open
    /// session's change set is Open; draft rows exist only at tiers whose
    /// change set, or session, exists and can still take them.
    pub open spec fn wf(self) -> bool {
        &&& self.table.wf()
        &&& forall|k: (Tier, Seq<char>)| #[trigger]
            self.table@.contains_key(k) ==> self.table@[k].wf()
        &&& forall|k: (Tier, Seq<char>)| #[trigger]
            self.table@.contains_key(k) ==> (k.0 is Head ==> self.table@[k] is Live)
        &&& forall|k: (Tier, Seq<char>)| #[trigger]
            self.table@.contains_key(k) ==> (k.0 matches Tier::ChangeSet(c) ==> c
                < self.change_sets@.len() && self.change_sets@[c as int].status is Open)
        &&& forall|k: (Tier, Seq<char>)| #[trigger]
            self.table@.contains_key(k) ==> (k.0 matches Tier::EditSession(s) ==> s
                < self.edit_sessions@.len() && self.edit_sessions@[s as int].status is Open)
        &&& forall|i: int|
            0 <= i < self.change_sets@.len() ==> (#[trigger] self.change_sets@[i]).id == i
        &&& forall|i: int|
            0 <= i < self.edit_sessions@.len() ==> (#[trigger] self.edit_sessions@[i]).id == i
                && self.edit_sessions@[i].change_set_id < self.change_sets@.len()
        &&& forall|i: int|
            0 <= i < self.edit_sessions@.len() ==> ((#[trigger] self.edit_sessions@[i]).status
                is Open ==> self.change_sets@[self.edit_sessions@[i].change_set_id as int].status
                is Open)
    }

    /// A fresh, empty store.
    pub fn new() -> (s: Store)
        ensures
            s.wf(),
            s.table@ == Map::<(Tier, Seq<char>), Doc>::empty(),
            s.change_sets@ == Seq::<ChangeSet>::empty(),
            s.edit_sessions@ == Seq::<EditSession>::empty(),
            s.pending@ == Seq::<ChangeEvent>::empty(),
    {
        Store {
            table: RowTable::new(),
            change_sets: Vec::new(),
            edit_sessions: Vec::new(),
            pending: Vec::new(),
        }
    }

    /// What `resolve` returns: the edit-session row if that context is
    /// given and holds one, else the change-set row if that context is
    /// given and holds one, else the Head row; a tombstone at the first
    /// applicable tier hides the object without falling further back.
    pub open spec fn spec_resolve(
        self,
        oid: Seq<char>,
        change_set_id: Option<u64>,
        edit_session_id: Option<u64>,
    ) -> Option<Record> {
        let es_hit: Option<Doc> = match edit_session_id {
            Option::Some(s) => if self.es_docs(s).contains_key(oid) {
                Option::Some(self.es_docs(s)[oid])
            } else {
                Option::None
            },
            Option::None => Option::None,
        };
        let cs_hit: Option<Doc> = match change_set_id {
            Option::Some(c) => if self.cs_docs(c).contains_key(oid) {
                Option::Some(self.cs_docs(c)[oid])
            } else {
                Option::None
            },
            Option::None => Option::None,
        };
        match es_hit {
            Option::Some(d) => doc_to_resolved(d),
            Option::None => match cs_hit {
                Option::Some(d) => doc_to_resolved(d),
                Option::None => if self.head_docs().contains_key(oid) {
                    doc_to_resolved(self.head_docs()[oid])
                } else {
                    Option::None
                },
            },
        }
    }

    /// Resolve an object under the given tier context. Returns the record
    /// the context sees, or `NotFound` when no applicable tier holds one.
    pub fn resolve(
        &self,
        object_id: &String,
        change_set_id: Option<u64>,
        edit_session_id: Option<u64>,
    ) -> (r: Result<Record, Error>)
        requires
            self.wf(),
        ensures
            match r {
                Result::Ok(rec) => self.spec_resolve(object_id@, change_set_id, edit_session_id)
                    == Option::Some(rec),
                Result::Err(e) => e == Error::NotFound && self.spec_resolve(
                    object_id@,
                    change_set_id,
                    edit_session_id,
                ) is None,
            },
    {
        if let Option::Some(s) = edit_session_id {
            match self.table.get(Tier::EditSession(s), object_id) {
                Option::Some(Doc::Live(rec)) => {
                    return Result::Ok(rec.clone());
                },
                Option::Some(Doc::Tombstone) => {
                    return Result::Err(Error::NotFound);
                },
                Option::None => {},
            }
        }
        if let Option::Some(c) = change_set_id {
            match self.table.get(Tier::ChangeSet(c), object_id) {
                Option::Some(Doc::Live(rec)) => {
                    return Result::Ok(rec.clone());
                },
                Option::Some(Doc::Tombstone) => {
                    return Result::Err(Error::NotFound);
                },
                Option::None => {},
            }
        }
        match self.table.get(Tier::Head, object_id) {
            Option::Some(Doc::Live(rec)) => Result::Ok(rec.clone()),
            Option::Some(Doc::Tombstone) => Result::Err(Error::NotFound),
            Option::None => Result::Err(Error::NotFound),
        }
    }

    /// Fetch a change set by id.
    pub fn get_change_set(&self, change_set_id: u64) -> (r: Result<ChangeSet, Error>)
        ensures
            match r {
                Result::Ok(cs) => change_set_id < self.change_sets@.len() && cs
                    == self.change_sets@[change_set_id as int],
                Result::Err(e) => e == Error::NotFound && change_set_id
                    >= self.change_sets@.len(),
            },
    {
        if change_set_id < self.change_sets.len() as u64 {
            Result::Ok(self.change_sets[change_set_id as usize].clone())
        } else {
            Result::Err(Error::NotFound)
        }
    }

    /// Fetch an edit session by id.
    pub fn get_edit_session(&self, edit_session_id: u64) -> (r: Result<EditSession, Error>)
        ensures
            match r {
                Result::Ok(es) => edit_session_id < self.edit_sessions@.len() && es
                    == self.edit_sessions@[edit_session_id as int],
                Result::Err(e) => e == Error::NotFound && edit_session_id
                    >= self.edit_sessions@.len(),
            },
    {
        if edit_session_id < self.edit_sessions.len() as u64 {
            Result::Ok(self.edit_sessions[edit_session_id as usize])
        } else {
            Result::Err(Error::NotFound)
        }
    }

    /// The copy-on-write ancestor of a draft: the session's existing draft
    /// if it holds one, else whatever the change-set/Head fallback chain
    /// sees for the session's change set.
    pub open spec fn write_base(self, oid: Seq<char>, s: u64) -> Option<Record> {
        let c = self.edit_sessions@[s as int].change_set_id;
        if self.es_docs(s).contains_key(oid) {
            doc_to_resolved(self.es_docs(s)[oid])
        } else {
            self.spec_resolve(oid, Option::Some(c), Option::None)
        }
    }

    /// Every tier other than session `s`'s is exactly as it was, and the
    /// lifecycle rows are untouched.
    pub open spec fn only_es_tier_changed(pre: Store, post: Store, s: u64) -> bool {
        &&& post.head_docs() == pre.head_docs()
        &&& forall|c2: u64| #[trigger] post.cs_docs(c2) == pre.cs_docs(c2)
        &&& forall|s2: u64| s2 != s ==> #[trigger] post.es_docs(s2) == pre.es_docs(s2)
        &&& post.change_sets == pre.change_sets
        &&& post.edit_sessions == pre.edit_sessions
    }

    /// A draft landed: session `s` now maps `oid` to `d`, nothing else
    /// moved, and exactly one notification for the new draft was queued.
    pub open spec fn draft_written(pre: Store, post: Store, oid: Seq<char>, s: u64, d: Doc) -> bool {
        &&& post.es_docs(s) == pre.es_docs(s).insert(oid, d)
        &&& Store::only_es_tier_changed(pre, post, s)
        &&& post.pending@.len() == pre.pending@.len() + 1
        &&& post.pending@.take(pre.pending@.len() as int) == pre.pending@
        &&& post.pending@.last().tier == Tier::EditSession(s)
        &&& post.pending@.last().object_id@ == oid
        &&& post.pending@.last().doc == d
    }

    /// The full contract of `write`, as a relation between the store before
    /// and after the call.
    pub open spec fn write_post(
        pre: Store,
        post: Store,
        oid: Seq<char>,
        s: u64,
        m: Mutation,
        r: Result<Option<Record>, Error>,
    ) -> bool {
        if s >= pre.edit_sessions@.len() {
            r == Result::<Option<Record>, Error>::Err(Error::NotFound) && post == pre
        } else if !(pre.edit_sessions@[s as int].status is Open) {
            r == Result::<Option<Record>, Error>::Err(Error::InvalidState) && post == pre
        } else {
            match m {
                Mutation::Replace(rec) => if !rec.wf() {
                    r == Result::<Option<Record>, Error>::Err(Error::Serialization) && post == pre
                } else {
                    r == Result::<Option<Record>, Error>::Ok(Option::Some(rec))
                        && Store::draft_written(pre, post, oid, s, Doc::Live(rec))
                },
                Mutation::Rename(name) => match Store::write_base(pre, oid, s) {
                    Option::None => r == Result::<Option<Record>, Error>::Err(Error::NotFound)
                        && post == pre,
                    Option::Some(base) => {
                        let renamed = Record {
                            kind: base.kind,
                            payload: Payload { name, data: base.payload.data },
                            edge: base.edge,
                        };
                        r == Result::<Option<Record>, Error>::Ok(Option::Some(renamed))
                            && Store::draft_written(pre, post, oid, s, Doc::Live(renamed))
                    },
                },
                Mutation::Delete => match Store::write_base(pre, oid, s) {
                    Option::None => r == Result::<Option<Record>, Error>::Err(Error::NotFound)
                        && post == pre,
                    Option::Some(_) => r == Result::<Option<Record>, Error>::Ok(Option::None)
                        && Store::draft_written(pre, post, oid, s, Doc::Tombstone),
                },
            }
        }
    }

    /// Write a mutation as a draft of the given edit session. The first
    /// write of an object inside a session clones the best-visible ancestor
    /// (change set, then Head) as the draft's initial state, so concurrent
    /// sessions never observe each other's uncommitted drafts.
    pub fn write(&mut self, object_id: &String, edit_session_id: u64, mutation: Mutation) -> (r:
        Result<Option<Record>, Error>)
        requires
            old(self).wf(),
        ensures
            final(self).wf(),
            Store::write_post(
                *old(self),
                *final(self),
                object_id@,
                edit_session_id,
                mutation,
                r,
            ),
    {
        let s = edit_session_id;
        if s >= self.edit_sessions.len() as u64 {
            return Result::Err(Error::NotFound);
        }
        let session = self.edit_sessions[s as usize];
        if !matches!(session.status, EditSessionStatus::Open) {
            return Result::Err(Error::InvalidState);
        }
        let c = session.change_set_id;

        let base: Option<Record> = match self.table.get(Tier::EditSession(s), object_id) {
            Option::Some(Doc::Live(rec)) => Option::Some(rec.clone()),
            Option::Some(Doc::Tombstone) => Option::None,
            Option::None => match self.resolve(object_id, Option::Some(c), Option::None) {
                Result::Ok(rec) => Option::Some(rec),
                Result::Err(_) => Option::None,
            },
        };
        proof {
            assert(Store::write_base(*self, object_id@, s) == base);
        }

        let ghost m = mutation;
        let (doc, ret): (Doc, Option<Record>) = match mutation {
            Mutation::Replace(rec) => {
                if !rec.check_wf() {
                    return Result::Err(Error::Serialization);
                }
                (Doc::Live(rec.clone()), Option::Some(rec))
            },
            Mutation::Rename(name) => match base {
                Option::None => {
                    return Result::Err(Error::NotFound);
                },
                Option::Some(b) => {
                    let renamed = Record {
                        kind: b.kind,
                        payload: Payload { name, data: b.payload.data },
                        edge: b.edge,
                    };
                    (Doc::Live(renamed.clone()), Option::Some(renamed))
                },
            },
            Mutation::Delete => match &base {
                Option::None => {
                    return Result::Err(Error::NotFound);
                },
                Option::Some(_) => (Doc::Tombstone, Option::None),
            },
        };

        let ghost pre = *self;
        self.table.upsert(Tier::EditSession(s), object_id.clone(), doc.clone());
        self.pending.push(
            ChangeEvent { tier: Tier::EditSession(s), object_id: object_id.clone(), doc: doc.clone() },
        );
        proof {
            let k: (Tier, Seq<char>) = (Tier::EditSession(s), object_id@);
            assert(self.table@ == pre.table@.insert(k, doc));
            assert(doc.wf()) by {
                Store::lemma_write_base_wf(pre, object_id@, s);
            }
            assert(self.wf()) by {
                assert forall|k2: (Tier, Seq<char>)| #[trigger]
                    self.table@.contains_key(k2) implies self.table@[k2].wf() && (k2.0 is Head
                    ==> self.table@[k2] is Live) && (k2.0 matches Tier::ChangeSet(c2) ==> c2
                    < self.change_sets@.len() && self.change_sets@[c2 as int].status is Open) && (
                k2.0 matches Tier::EditSession(s2) ==> s2 < self.edit_sessions@.len()
                    && self.edit_sessions@[s2 as int].status is Open) by {
                    if k2 != k {
                        assert(pre.table@.contains_key(k2));
                    }
                }
            }
            assert(self.es_docs(s) =~= pre.es_docs(s).insert(object_id@, doc));
            assert(self.head_docs() =~= pre.head_docs());
            assert forall|c2: u64| #[trigger] self.cs_docs(c2) == pre.cs_docs(c2) by {
                assert(self.cs_docs(c2) =~= pre.cs_docs(c2));
            }
            assert forall|s2: u64| s2 != s implies #[trigger] self.es_docs(s2) == pre.es_docs(
                s2,
            ) by {
                assert(self.es_docs(s2) =~= pre.es_docs(s2));
            }
            assert(self.pending@.take(pre.pending@.len() as int) =~= pre.pending@);
            assert(Store::write_post(pre, *self, object_id@, s, m, Result::Ok(ret)));
        }
        Result::Ok(ret)
    }

    /// Any ancestor a write starts from is well formed, because every
    /// stored document is.
    pub proof fn lemma_write_base_wf(pre: Store, oid: Seq<char>, s: u64)
        requires
            pre.wf(),
        ensures
            Store::write_base(pre, oid, s) matches Option::Some(b) ==> b.wf(),
    {
    }

    /// Prefix preservation chains: what extends `b` after `b` extended `a`
    /// still extends `a`.
    pub proof fn lemma_pending_prefix_trans(a: Seq<ChangeEvent>, b: Seq<ChangeEvent>, c: Seq<
        ChangeEvent,
    >)
        requires
            a.len() <= b.len(),
            b.len() <= c.len(),
            b.take(a.len() as int) == a,
            c.take(b.len() as int) == b,
        ensures
            c.take(a.len() as int) == a,
    {
        assert forall|i: int| 0 <= i < a.len() implies c.take(a.len() as int)[i] == a[i] by {
            assert(c.take(b.len() as int)[i] == b[i]);
            assert(b.take(a.len() as int)[i] == a[i]);
        }
        assert(c.take(a.len() as int) =~= a);
    }

    /// The queued change notifications, in the order they were produced.
    pub fn pending_events(&self) -> (r: &Vec<ChangeEvent>)
        ensures
            r@ == self.pending@,
    {
        &self.pending
    }

    /// Forget the queued notifications; the caller calls this after
    /// publishing them, once the surrounding transaction has committed.
    pub fn clear_pending_events(&mut self)
        ensures
            final(self).table == old(self).table,
            final(self).change_sets == old(self).change_sets,
            final(self).edit_sessions == old(self).edit_sessions,
            final(self).pending@ == Seq::<ChangeEvent>::empty(),
            final(self).wf() == old(self).wf(),
    {
        self.pending = Vec::new();
    }
}

} // verus!
