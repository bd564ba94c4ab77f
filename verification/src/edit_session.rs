//! Edit sessions: single-writer scratch layers under one change set. A
//! session is Open while it accepts drafts; saving it promotes its drafts
//! into the change-set tier and is terminal, as is canceling it.

use vstd::prelude::*;
use crate::change_set::ChangeSetStatus;
use crate::record::Doc;
use crate::store::{ChangeEvent, Error, Store};
use crate::table::{
    docs_of, drop_tier, lemma_docs_contains, lemma_docs_index, lemma_docs_take_push,
    lemma_key_eta, tier_docs, unique_ids, Tier,
};

verus! {

/// The lifecycle status of an edit session. Saved and Canceled are terminal.
#[derive(Clone, Copy, Debug, PartialEq, Eq, Structural)]
pub enum EditSessionStatus {
    Open,
    Saved,
    Canceled,
}

/// An edit session row. Its id doubles as its index in the store's session
/// list.
#[derive(Clone, Copy, Debug, PartialEq, Eq, Structural)]
pub struct EditSession {
    pub id: u64,
    pub change_set_id: u64,
    pub workspace_id: u64,
    pub status: EditSessionStatus,
}

impl EditSession {
    /// Why a lifecycle transition on this session must fail, given the
    /// caller's copy of it: the session does not exist; the store's row
    /// differs from what the caller read (a concurrent transition won the
    /// race); or the session is not Open.
    pub open spec fn gate(pre: Store, es: EditSession) -> Option<Error> {
        if es.id >= pre.edit_sessions@.len() {
            Option::Some(Error::NotFound)
        } else if pre.edit_sessions@[es.id as int] != es {
            Option::Some(Error::Conflict)
        } else if !(es.status is Open) {
            Option::Some(Error::InvalidState)
        } else {
            Option::None
        }
    }

    /// The full contract of `new`.
    pub open spec fn new_post(
        pre: Store,
        post: Store,
        change_set_id: u64,
        workspace_id: u64,
        r: Result<EditSession, Error>,
    ) -> bool {
        if change_set_id >= pre.change_sets@.len() {
            r == Result::<EditSession, Error>::Err(Error::NotFound) && post == pre
        } else if !(pre.change_sets@[change_set_id as int].status is Open) {
            r == Result::<EditSession, Error>::Err(Error::InvalidState) && post == pre
        } else {
            let es = EditSession {
                id: pre.edit_sessions@.len() as u64,
                change_set_id,
                workspace_id,
                status: EditSessionStatus::Open,
            };
            &&& r == Result::<EditSession, Error>::Ok(es)
            &&& post.edit_sessions@ == pre.edit_sessions@.push(es)
            &&& post.table == pre.table
            &&& post.change_sets == pre.change_sets
            &&& post.pending == pre.pending
        }
    }

    /// Open an edit session under an Open change set.
    pub fn new(store: &mut Store, change_set_id: u64, workspace_id: u64) -> (r: Result<
        EditSession,
        Error,
    >)
        requires
            old(store).wf(),
        ensures
            final(store).wf(),
            EditSession::new_post(*old(store), *final(store), change_set_id, workspace_id, r),
    {
        if change_set_id >= store.change_sets.len() as u64 {
            return Result::Err(Error::NotFound);
        }
        if !matches!(
            store.change_sets[change_set_id as usize].status,
            ChangeSetStatus::Open
        ) {
            return Result::Err(Error::InvalidState);
        }
        let es = EditSession {
            id: store.edit_sessions.len() as u64,
            change_set_id,
            workspace_id,
            status: EditSessionStatus::Open,
        };
        let ghost pre = *store;
        store.edit_sessions.push(es);
        proof {
            assert forall|i: int| 0 <= i < store.edit_sessions@.len() implies (
            #[trigger] store.edit_sessions@[i]).id == i
                && store.edit_sessions@[i].change_set_id < store.change_sets@.len() && (
            store.edit_sessions@[i].status is Open
                ==> store.change_sets@[store.edit_sessions@[i].change_set_id as int].status
                is Open) by {
                if i < pre.edit_sessions@.len() {
                    assert(store.edit_sessions@[i] == pre.edit_sessions@[i]);
                }
            }
        }
        Result::Ok(es)
    }

    /// The full contract of `save_session`.
    pub open spec fn save_session_post(
        pre: Store,
        post: Store,
        es_pre: EditSession,
        es_post: EditSession,
        r: Result<(), Error>,
    ) -> bool {
        match EditSession::gate(pre, es_pre) {
            Option::Some(e) => r == Result::<(), Error>::Err(e) && post == pre && es_post
                == es_pre,
            Option::None => {
                let s = es_pre.id;
                let c = es_pre.change_set_id;
                let saved = EditSession { status: EditSessionStatus::Saved, ..es_pre };
                &&& r == Result::<(), Error>::Ok(())
                &&& es_post == saved
                &&& post.cs_docs(c) == pre.cs_docs(c).union_prefer_right(pre.es_docs(s))
                &&& post.es_docs(s) == Map::<Seq<char>, Doc>::empty()
                &&& forall|c2: u64| c2 != c ==> #[trigger] post.cs_docs(c2) == pre.cs_docs(c2)
                &&& forall|s2: u64| s2 != s ==> #[trigger] post.es_docs(s2) == pre.es_docs(s2)
                &&& post.head_docs() == pre.head_docs()
                &&& post.edit_sessions@ == pre.edit_sessions@.update(s as int, saved)
                &&& post.change_sets == pre.change_sets
                &&& post.pending@.len() >= pre.pending@.len()
                &&& post.pending@.take(pre.pending@.len() as int) == pre.pending@
                &&& forall|j: int|
                    pre.pending@.len() <= j < post.pending@.len() ==> (#[trigger] post.pending@[j]).tier
                        == Tier::ChangeSet(c) && pre.es_docs(s).contains_key(
                        post.pending@[j].object_id@,
                    ) && post.pending@[j].doc == pre.es_docs(s)[post.pending@[j].object_id@]
                &&& forall|oid: Seq<char>| #[trigger]
                    pre.es_docs(s).contains_key(oid) ==> exists|j: int|
                        pre.pending@.len() <= j < post.pending@.len() && (
                        #[trigger] post.pending@[j]).object_id@ == oid
            },
        }
    }

    /// Save the session: promote every draft row it owns into its change
    /// set's tier (create-or-replace), drop the session's own rows, and
    /// mark the session Saved. One transaction; a notification is queued
    /// for every promoted row.
    pub fn save_session(&mut self, store: &mut Store) -> (r: Result<(), Error>)
        requires
            old(store).wf(),
        ensures
            final(store).wf(),
            EditSession::save_session_post(
                *old(store),
                *final(store),
                *old(self),
                *final(self),
                r,
            ),
    {
        let s = self.id;
        if s >= store.edit_sessions.len() as u64 {
            return Result::Err(Error::NotFound);
        }
        let stored = store.edit_sessions[s as usize];
        if stored != *self {
            return Result::Err(Error::Conflict);
        }
        if !matches!(self.status, EditSessionStatus::Open) {
            return Result::Err(Error::InvalidState);
        }
        let c = self.change_set_id;
        let ghost pre = *store;
        let drafts = store.table.extract_tier(Tier::EditSession(s));
        proof {
            assert forall|oid: Seq<char>| #[trigger] docs_of(drafts@).contains_key(
                oid,
            ) implies docs_of(drafts@)[oid].wf() by {
                assert(pre.table@.contains_key((Tier::EditSession(s), oid)));
            }
        }
        let ghost mid = store.table@;
        let mut j: usize = 0;
        while j < drafts.len()
            invariant
                store.table.wf(),
                j <= drafts@.len(),
                unique_ids(drafts@),
                docs_of(drafts@) == pre.es_docs(s),
                forall|oid: Seq<char>| #[trigger]
                    docs_of(drafts@).contains_key(oid) ==> docs_of(drafts@)[oid].wf(),
                s < pre.edit_sessions@.len(),
                c == pre.edit_sessions@[s as int].change_set_id,
                pre.wf(),
                pre.edit_sessions@[s as int].status is Open,
                tier_docs(store.table@, Tier::ChangeSet(c)) == pre.cs_docs(c).union_prefer_right(
                    docs_of(drafts@.take(j as int)),
                ),
                tier_docs(store.table@, Tier::Head) == pre.head_docs(),
                forall|c2: u64|
                    c2 != c ==> #[trigger] tier_docs(store.table@, Tier::ChangeSet(c2))
                        == pre.cs_docs(c2),
                tier_docs(store.table@, Tier::EditSession(s)) == Map::<Seq<char>, Doc>::empty(),
                forall|s2: u64|
                    s2 != s ==> #[trigger] tier_docs(store.table@, Tier::EditSession(s2))
                        == pre.es_docs(s2),
                store.pending@.len() == pre.pending@.len() + j,
                store.pending@.take(pre.pending@.len() as int) == pre.pending@,
                forall|jj: int|
                    pre.pending@.len() <= jj < store.pending@.len() ==> (
                    #[trigger] store.pending@[jj]).tier == Tier::ChangeSet(c) && docs_of(
                        drafts@,
                    ).contains_key(store.pending@[jj].object_id@) && store.pending@[jj].doc
                        == docs_of(drafts@)[store.pending@[jj].object_id@],
                forall|m: int|
                    0 <= m < j ==> (#[trigger] store.pending@[pre.pending@.len() + m]).object_id@
                        == drafts@[m].0@,
                store.change_sets == pre.change_sets,
                store.edit_sessions == pre.edit_sessions,
            decreases drafts@.len() - j,
        {
            let oid = drafts[j].0.clone();
            let d = drafts[j].1.clone();
            let ghost tpre = store.table@;
            store.table.upsert(Tier::ChangeSet(c), oid.clone(), d.clone());
            store.pending.push(ChangeEvent { tier: Tier::ChangeSet(c), object_id: oid, doc: d });
            proof {
                lemma_docs_take_push(drafts@, j as int);
                lemma_docs_index(drafts@, j as int);
                assert(tier_docs(store.table@, Tier::ChangeSet(c)) =~= tier_docs(
                    tpre,
                    Tier::ChangeSet(c),
                ).insert(drafts@[j as int].0@, drafts@[j as int].1));
                assert(tier_docs(store.table@, Tier::ChangeSet(c)) =~= pre.cs_docs(
                    c,
                ).union_prefer_right(docs_of(drafts@.take(j as int + 1))));
                assert(tier_docs(store.table@, Tier::Head) =~= tier_docs(tpre, Tier::Head));
                assert forall|c2: u64| c2 != c implies #[trigger] tier_docs(
                    store.table@,
                    Tier::ChangeSet(c2),
                ) == pre.cs_docs(c2) by {
                    assert(tier_docs(store.table@, Tier::ChangeSet(c2)) =~= tier_docs(
                        tpre,
                        Tier::ChangeSet(c2),
                    ));
                }
                assert forall|s2: u64| s2 != s implies #[trigger] tier_docs(
                    store.table@,
                    Tier::EditSession(s2),
                ) == pre.es_docs(s2) by {
                    assert(tier_docs(store.table@, Tier::EditSession(s2)) =~= tier_docs(
                        tpre,
                        Tier::EditSession(s2),
                    ));
                }
                assert(tier_docs(store.table@, Tier::EditSession(s)) =~= tier_docs(
                    tpre,
                    Tier::EditSession(s),
                ));
                assert(store.pending@.take(pre.pending@.len() as int) =~= pre.pending@);
            }
            j = j + 1;
        }
        self.status = EditSessionStatus::Saved;
        let saved = *self;
        store.edit_sessions.set(s as usize, saved);
        proof {
            assert(drafts@.take(drafts@.len() as int) =~= drafts@);
            assert forall|c2: u64, oid: Seq<char>| #[trigger] store.cs_docs(c2).contains_key(
                oid,
            ) implies (pre.cs_docs(c2).contains_key(oid) && store.cs_docs(c2)[oid] == pre.cs_docs(
                c2,
            )[oid]) || (c2 == pre.edit_sessions@[s as int].change_set_id && pre.es_docs(
                s,
            ).contains_key(oid) && store.cs_docs(c2)[oid] == pre.es_docs(s)[oid]) by {
                if c2 == c {
                    assert(store.cs_docs(c) == pre.cs_docs(c).union_prefer_right(
                        pre.es_docs(s),
                    ));
                }
            }
            lemma_wf_after_session_terminal(pre, *store, s, EditSessionStatus::Saved);
            assert forall|oid: Seq<char>| #[trigger] pre.es_docs(s).contains_key(
                oid,
            ) implies exists|j2: int|
                pre.pending@.len() <= j2 < store.pending@.len() && (
                #[trigger] store.pending@[j2]).object_id@ == oid by {
                lemma_docs_contains(drafts@, oid);
                let m = choose|m: int| 0 <= m < drafts@.len() && drafts@[m].0@ == oid;
                assert(store.pending@[pre.pending@.len() + m].object_id@ == oid);
            }
        }
        Result::Ok(())
    }

    /// The full contract of `cancel`.
    pub open spec fn cancel_post(
        pre: Store,
        post: Store,
        es_pre: EditSession,
        es_post: EditSession,
        r: Result<(), Error>,
    ) -> bool {
        match EditSession::gate(pre, es_pre) {
            Option::Some(e) => r == Result::<(), Error>::Err(e) && post == pre && es_post
                == es_pre,
            Option::None => {
                let s = es_pre.id;
                let canceled = EditSession { status: EditSessionStatus::Canceled, ..es_pre };
                &&& r == Result::<(), Error>::Ok(())
                &&& es_post == canceled
                &&& post.es_docs(s) == Map::<Seq<char>, Doc>::empty()
                &&& forall|c2: u64| #[trigger] post.cs_docs(c2) == pre.cs_docs(c2)
                &&& forall|s2: u64| s2 != s ==> #[trigger] post.es_docs(s2) == pre.es_docs(s2)
                &&& post.head_docs() == pre.head_docs()
                &&& post.edit_sessions@ == pre.edit_sessions@.update(s as int, canceled)
                &&& post.change_sets == pre.change_sets
                &&& post.pending@.len() >= pre.pending@.len()
                &&& post.pending@.take(pre.pending@.len() as int) == pre.pending@
                &&& forall|j: int|
                    pre.pending@.len() <= j < post.pending@.len() ==> (#[trigger] post.pending@[j]).tier
                        == Tier::EditSession(s) && pre.es_docs(s).contains_key(
                        post.pending@[j].object_id@,
                    ) && post.pending@[j].doc == Doc::Tombstone
                &&& forall|oid: Seq<char>| #[trigger]
                    pre.es_docs(s).contains_key(oid) ==> exists|j: int|
                        pre.pending@.len() <= j < post.pending@.len() && (
                        #[trigger] post.pending@[j]).object_id@ == oid
            },
        }
    }

    /// Cancel the session: discard every draft row it owns, leaving the
    /// change-set tier untouched, and mark the session Canceled. A
    /// deletion-marker notification is queued for every discarded draft.
    pub fn cancel(&mut self, store: &mut Store) -> (r: Result<(), Error>)
        requires
            old(store).wf(),
        ensures
            final(store).wf(),
            EditSession::cancel_post(*old(store), *final(store), *old(self), *final(self), r),
    {
        let s = self.id;
        if s >= store.edit_sessions.len() as u64 {
            return Result::Err(Error::NotFound);
        }
        let stored = store.edit_sessions[s as usize];
        if stored != *self {
            return Result::Err(Error::Conflict);
        }
        if !matches!(self.status, EditSessionStatus::Open) {
            return Result::Err(Error::InvalidState);
        }
        let ghost pre = *store;
        let drafts = store.table.extract_tier(Tier::EditSession(s));
        let mut j: usize = 0;
        while j < drafts.len()
            invariant
                j <= drafts@.len(),
                unique_ids(drafts@),
                docs_of(drafts@) == pre.es_docs(s),
                store.table@ == drop_tier(pre.table@, Tier::EditSession(s)),
                store.table.wf(),
                store.pending@.len() == pre.pending@.len() + j,
                store.pending@.take(pre.pending@.len() as int) == pre.pending@,
                forall|jj: int|
                    pre.pending@.len() <= jj < store.pending@.len() ==> (
                    #[trigger] store.pending@[jj]).tier == Tier::EditSession(s) && docs_of(
                        drafts@,
                    ).contains_key(store.pending@[jj].object_id@) && store.pending@[jj].doc
                        == Doc::Tombstone,
                forall|m: int|
                    0 <= m < j ==> (#[trigger] store.pending@[pre.pending@.len() + m]).object_id@
                        == drafts@[m].0@,
                store.change_sets == pre.change_sets,
                store.edit_sessions == pre.edit_sessions,
            decreases drafts@.len() - j,
        {
            let oid = drafts[j].0.clone();
            store.pending.push(
                ChangeEvent { tier: Tier::EditSession(s), object_id: oid, doc: Doc::Tombstone },
            );
            proof {
                lemma_docs_index(drafts@, j as int);
                assert(store.pending@.take(pre.pending@.len() as int) =~= pre.pending@);
            }
            j = j + 1;
        }
        self.status = EditSessionStatus::Canceled;
        let canceled = *self;
        store.edit_sessions.set(s as usize, canceled);
        proof {
            assert(store.head_docs() =~= pre.head_docs());
            assert(store.es_docs(s) =~= Map::<Seq<char>, Doc>::empty());
            assert forall|c2: u64| #[trigger] store.cs_docs(c2) == pre.cs_docs(c2) by {
                assert(store.cs_docs(c2) =~= pre.cs_docs(c2));
            }
            assert forall|s2: u64| s2 != s implies #[trigger] store.es_docs(s2) == pre.es_docs(
                s2,
            ) by {
                assert(store.es_docs(s2) =~= pre.es_docs(s2));
            }
            assert forall|c2: u64, oid: Seq<char>| #[trigger] store.cs_docs(c2).contains_key(
                oid,
            ) implies (pre.cs_docs(c2).contains_key(oid) && store.cs_docs(c2)[oid] == pre.cs_docs(
                c2,
            )[oid]) || (c2 == pre.edit_sessions@[s as int].change_set_id && pre.es_docs(
                s,
            ).contains_key(oid) && store.cs_docs(c2)[oid] == pre.es_docs(s)[oid]) by {}
            lemma_wf_after_session_terminal(pre, *store, s, EditSessionStatus::Canceled);
            assert forall|oid: Seq<char>| #[trigger] pre.es_docs(s).contains_key(
                oid,
            ) implies exists|j2: int|
                pre.pending@.len() <= j2 < store.pending@.len() && (
                #[trigger] store.pending@[j2]).object_id@ == oid by {
                lemma_docs_contains(drafts@, oid);
                let m = choose|m: int| 0 <= m < drafts@.len() && drafts@[m].0@ == oid;
                assert(store.pending@[pre.pending@.len() + m].object_id@ == oid);
            }
        }
        Result::Ok(())
    }
}

/// Re-establish the store's well-formedness after one session's terminal
/// transition: Head is untouched, every change-set document was either
/// already there or absorbed from that session's drafts, the session's
/// tier is drained, every other session tier is untouched, and the only
/// lifecycle change is that session's row turning terminal.
pub proof fn lemma_wf_after_session_terminal(
    pre: Store,
    post: Store,
    s: u64,
    st: EditSessionStatus,
)
    requires
        pre.wf(),
        s < pre.edit_sessions@.len(),
        pre.edit_sessions@[s as int].status is Open,
        !(st is Open),
        post.table.wf(),
        post.head_docs() == pre.head_docs(),
        forall|c2: u64, oid: Seq<char>| #[trigger]
            post.cs_docs(c2).contains_key(oid) ==> (pre.cs_docs(c2).contains_key(oid)
                && post.cs_docs(c2)[oid] == pre.cs_docs(c2)[oid]) || (c2
                == pre.edit_sessions@[s as int].change_set_id && pre.es_docs(s).contains_key(oid)
                && post.cs_docs(c2)[oid] == pre.es_docs(s)[oid]),
        post.es_docs(s) == Map::<Seq<char>, Doc>::empty(),
        forall|s2: u64| s2 != s ==> #[trigger] post.es_docs(s2) == pre.es_docs(s2),
        post.change_sets == pre.change_sets,
        post.edit_sessions@ == pre.edit_sessions@.update(
            s as int,
            EditSession { status: st, ..pre.edit_sessions@[s as int] },
        ),
    ensures
        post.wf(),
{
    assert forall|k: (Tier, Seq<char>)| #[trigger]
        post.table@.contains_key(k) implies post.table@[k].wf() && (k.0 is Head
        ==> post.table@[k] is Live) && (k.0 matches Tier::ChangeSet(c2) ==> c2
        < post.change_sets@.len() && post.change_sets@[c2 as int].status is Open) && (
    k.0 matches Tier::EditSession(s2) ==> s2 < post.edit_sessions@.len()
        && post.edit_sessions@[s2 as int].status is Open) by {
        lemma_key_eta(k);
        match k.0 {
            Tier::Head => {
                assert(post.table@[k] == tier_docs(post.table@, Tier::Head)[k.1]);
                assert(pre.head_docs().contains_key(k.1));
                assert(pre.table@.contains_key(k));
                assert(post.table@[k] == pre.table@[k]);
            },
            Tier::ChangeSet(c2) => {
                assert(post.cs_docs(c2).contains_key(k.1));
                assert(post.table@[k] == post.cs_docs(c2)[k.1]);
                if pre.cs_docs(c2).contains_key(k.1) && post.cs_docs(c2)[k.1] == pre.cs_docs(
                    c2,
                )[k.1] {
                    assert(pre.table@.contains_key(k));
                    assert(post.table@[k] == pre.table@[k]);
                } else {
                    assert(c2 == pre.edit_sessions@[s as int].change_set_id && pre.es_docs(
                        s,
                    ).contains_key(k.1));
                    assert(pre.table@.contains_key((Tier::EditSession(s), k.1)));
                    assert(post.table@[k] == pre.table@[(Tier::EditSession(s), k.1)]);
                    assert(c2 < pre.change_sets@.len());
                    assert(pre.change_sets@[c2 as int].status is Open);
                }
            },
            Tier::EditSession(s2) => {
                assert(post.es_docs(s2).contains_key(k.1));
                if s2 == s {
                    assert(false);
                }
                assert(pre.es_docs(s2).contains_key(k.1));
                assert(pre.table@.contains_key(k));
                assert(post.table@[k] == post.es_docs(s2)[k.1]);
                assert(post.table@[k] == pre.table@[k]);
                assert(post.edit_sessions@[s2 as int] == pre.edit_sessions@[s2 as int]);
            },
        }
    }
    assert forall|i: int| 0 <= i < post.edit_sessions@.len() implies (
    #[trigger] post.edit_sessions@[i]).id == i && post.edit_sessions@[i].change_set_id
        < post.change_sets@.len() && (post.edit_sessions@[i].status is Open
        ==> post.change_sets@[post.edit_sessions@[i].change_set_id as int].status is Open) by {
        if i != s {
            assert(post.edit_sessions@[i] == pre.edit_sessions@[i]);
        }
    }
}

} // verus!
