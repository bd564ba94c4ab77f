//! Change sets: named, reviewable branches of proposed edits. A change set
//! is Open while it accepts edit sessions and saved drafts; applying it
//! promotes its whole tier into Head atomically and is terminal, as is
//! abandoning it.

use vstd::prelude::*;
use crate::edit_session::{EditSession, EditSessionStatus};
use crate::record::Doc;
use crate::store::{ChangeEvent, Error, Store};
use crate::table::{
    docs_of, drop_tier, lemma_docs_contains, lemma_docs_index, lemma_docs_take_push,
    lemma_key_eta, tier_docs, unique_ids, Tier,
};

verus! {

/// The lifecycle status of a change set. Applied and Abandoned are terminal.
#[derive(Clone, Copy, Debug, PartialEq, Eq, Structural)]
pub enum ChangeSetStatus {
    Open,
    Applied,
    Abandoned,
}

/// A change set row. Its id doubles as its index in the store's change-set
/// list; its timestamp is supplied by the caller (the core has no clock).
#[derive(Debug, PartialEq, Eq)]
pub struct ChangeSet {
    pub id: u64,
    pub name: Option<String>,
    pub workspace_id: u64,
    pub status: ChangeSetStatus,
    pub created_at: u64,
}

impl Clone for ChangeSet {
    fn clone(&self) -> (r: Self)
        ensures
            r == *self,
    {
        ChangeSet {
            id: self.id,
            name: match &self.name {
                Option::Some(n) => Option::Some(n.clone()),
                Option::None => Option::None,
            },
            workspace_id: self.workspace_id,
            status: self.status,
            created_at: self.created_at,
        }
    }
}

/// Head after a change-set tier is applied onto it: every live drafted
/// document becomes the Head row for its object, every drafted tombstone
/// deletes the Head row, and objects the change set never touched keep
/// their Head rows.
pub open spec fn apply_docs(head: Map<Seq<char>, Doc>, cs: Map<Seq<char>, Doc>) -> Map<
    Seq<char>,
    Doc,
> {
    Map::new(
        |oid: Seq<char>|
            if cs.contains_key(oid) {
                cs[oid] is Live
            } else {
                head.contains_key(oid)
            },
        |oid: Seq<char>|
            if cs.contains_key(oid) {
                cs[oid]
            } else {
                head[oid]
            },
    )
}

/// Applying one more drafted document extends the applied Head pointwise.
pub proof fn lemma_apply_docs_step(
    head: Map<Seq<char>, Doc>,
    m: Map<Seq<char>, Doc>,
    oid: Seq<char>,
    d: Doc,
)
    requires
        !m.contains_key(oid),
    ensures
        d is Live ==> apply_docs(head, m.insert(oid, d)) == apply_docs(head, m).insert(oid, d),
        d is Tombstone ==> apply_docs(head, m.insert(oid, d)) == apply_docs(head, m).remove(oid),
{
    if d is Live {
        assert(apply_docs(head, m.insert(oid, d)) =~= apply_docs(head, m).insert(oid, d));
    } else {
        assert(apply_docs(head, m.insert(oid, d)) =~= apply_docs(head, m).remove(oid));
    }
}

/// Whether applying change set `c` terminates session `s`: it does when
/// the session runs under `c` and is still Open.
pub open spec fn terminated_by_apply(pre: Store, c: u64, s: int) -> bool {
    &&& 0 <= s < pre.edit_sessions@.len()
    &&& pre.edit_sessions@[s].change_set_id == c
    &&& pre.edit_sessions@[s].status is Open
}


/// Re-establish the store's well-formedness after one change set's
/// terminal transition: its tier is drained, every Head document was
/// already at Head or absorbed live from that tier, sessions still Open
/// under it are canceled with their drafts dropped, every other tier is
/// untouched, and the change set's row turns terminal.
pub proof fn lemma_wf_after_change_set_terminal(
    pre: Store,
    post: Store,
    c: u64,
    st: ChangeSetStatus,
)
    requires
        pre.wf(),
        c < pre.change_sets@.len(),
        !(st is Open),
        post.table.wf(),
        forall|oid: Seq<char>| #[trigger]
            post.head_docs().contains_key(oid) ==> (pre.head_docs().contains_key(oid)
                && post.head_docs()[oid] == pre.head_docs()[oid]) || (pre.cs_docs(
                c,
            ).contains_key(oid) && post.head_docs()[oid] == pre.cs_docs(c)[oid] && pre.cs_docs(
                c,
            )[oid] is Live),
        post.cs_docs(c) == Map::<Seq<char>, Doc>::empty(),
        forall|c2: u64| c2 != c ==> #[trigger] post.cs_docs(c2) == pre.cs_docs(c2),
        forall|s: u64|
            #[trigger] post.es_docs(s) == if terminated_by_apply(pre, c, s as int) {
                Map::<Seq<char>, Doc>::empty()
            } else {
                pre.es_docs(s)
            },
        post.change_sets@ == pre.change_sets@.update(
            c as int,
            ChangeSet { status: st, ..pre.change_sets@[c as int] },
        ),
        post.edit_sessions@.len() == pre.edit_sessions@.len(),
        forall|i: int|
            0 <= i < pre.edit_sessions@.len() ==> #[trigger] post.edit_sessions@[i]
                == if terminated_by_apply(pre, c, i) {
                EditSession { status: EditSessionStatus::Canceled, ..pre.edit_sessions@[i] }
            } else {
                pre.edit_sessions@[i]
            },
    ensures
        post.wf(),
{
    assert forall|k: (Tier, Seq<char>)| #[trigger]
        post.table@.contains_key(k) implies post.table@[k].wf() && (k.0 is Head
        ==> post.table@[k] is Live) && (k.0 matches Tier::ChangeSet(c2) ==> c2
        < post.change_sets@.len() && post.change_sets@[c2 as int].status is Open) && (
    k.0 matches Tier::EditSession(s2) ==> s2 < post.edit_sessions@.len()
        && post.edit_sessions@[s2 as int].status is Open) by {
        lemma_key_eta(k);
        match k.0 {
            Tier::Head => {
                assert(post.head_docs().contains_key(k.1));
                assert(post.table@[k] == post.head_docs()[k.1]);
                if pre.head_docs().contains_key(k.1) && post.head_docs()[k.1]
                    == pre.head_docs()[k.1] {
                    assert(pre.table@.contains_key(k));
                    assert(post.table@[k] == pre.table@[k]);
                } else {
                    assert(pre.cs_docs(c).contains_key(k.1) && pre.cs_docs(c)[k.1] is Live);
                    assert(pre.table@.contains_key((Tier::ChangeSet(c), k.1)));
                    assert(post.table@[k] == pre.table@[(Tier::ChangeSet(c), k.1)]);
                }
            },
            Tier::ChangeSet(c2) => {
                assert(post.cs_docs(c2).contains_key(k.1));
                if c2 == c {
                    assert(false);
                }
                assert(pre.cs_docs(c2).contains_key(k.1));
                assert(pre.table@.contains_key(k));
                assert(post.table@[k] == post.cs_docs(c2)[k.1]);
                assert(post.table@[k] == pre.table@[k]);
                assert(post.change_sets@[c2 as int] == pre.change_sets@[c2 as int]);
            },
            Tier::EditSession(s2) => {
                assert(post.es_docs(s2).contains_key(k.1));
                assert(!terminated_by_apply(pre, c, s2 as int));
                assert(pre.es_docs(s2).contains_key(k.1));
                assert(pre.table@.contains_key(k));
                assert(post.table@[k] == post.es_docs(s2)[k.1]);
                assert(post.table@[k] == pre.table@[k]);
                assert(pre.edit_sessions@[s2 as int].status is Open);
                assert(pre.edit_sessions@[s2 as int].change_set_id != c);
                assert(post.edit_sessions@[s2 as int] == pre.edit_sessions@[s2 as int]);
                assert(post.change_sets@[pre.edit_sessions@[s2 as int].change_set_id as int]
                    == pre.change_sets@[pre.edit_sessions@[s2 as int].change_set_id as int]);
            },
        }
    }
    assert forall|i2: int| 0 <= i2 < post.edit_sessions@.len() implies (
    #[trigger] post.edit_sessions@[i2]).id == i2 && post.edit_sessions@[i2].change_set_id
        < post.change_sets@.len() && (post.edit_sessions@[i2].status is Open
        ==> post.change_sets@[post.edit_sessions@[i2].change_set_id as int].status is Open) by {
        if terminated_by_apply(pre, c, i2) {
        } else {
            assert(post.edit_sessions@[i2] == pre.edit_sessions@[i2]);
            if post.edit_sessions@[i2].status is Open {
                assert(pre.edit_sessions@[i2].change_set_id != c);
            }
        }
    }
    assert forall|i2: int| 0 <= i2 < post.change_sets@.len() implies (
    #[trigger] post.change_sets@[i2]).id == i2 by {
        if i2 != c {
            assert(post.change_sets@[i2] == pre.change_sets@[i2]);
        }
    }
}

impl ChangeSet {
    /// Why a lifecycle transition on this change set must fail, given the
    /// caller's copy of it.
    pub open spec fn gate(pre: Store, cs: ChangeSet) -> Option<Error> {
        if cs.id >= pre.change_sets@.len() {
            Option::Some(Error::NotFound)
        } else if pre.change_sets@[cs.id as int].status != cs.status {
            Option::Some(Error::Conflict)
        } else if !(cs.status is Open) {
            Option::Some(Error::InvalidState)
        } else {
            Option::None
        }
    }

    /// Open a change set in a workspace, stamped with the caller's time.
    pub fn new(store: &mut Store, name: Option<String>, workspace_id: u64, created_at: u64) -> (cs:
        ChangeSet)
        requires
            old(store).wf(),
        ensures
            final(store).wf(),
            cs == (ChangeSet {
                id: old(store).change_sets@.len() as u64,
                name,
                workspace_id,
                status: ChangeSetStatus::Open,
                created_at,
            }),
            final(store).change_sets@ == old(store).change_sets@.push(cs),
            final(store).table == old(store).table,
            final(store).edit_sessions == old(store).edit_sessions,
            final(store).pending == old(store).pending,
    {
        let cs = ChangeSet {
            id: store.change_sets.len() as u64,
            name,
            workspace_id,
            status: ChangeSetStatus::Open,
            created_at,
        };
        let ghost pre = *store;
        store.change_sets.push(cs.clone());
        proof {
            assert forall|i: int| 0 <= i < store.change_sets@.len() implies (
            #[trigger] store.change_sets@[i]).id == i by {
                if i < pre.change_sets@.len() {
                    assert(store.change_sets@[i] == pre.change_sets@[i]);
                }
            }
        }
        cs
    }

    /// The full contract of `apply`.
    pub open spec fn apply_post(
        pre: Store,
        post: Store,
        cs_pre: ChangeSet,
        cs_post: ChangeSet,
        r: Result<(), Error>,
    ) -> bool {
        match ChangeSet::gate(pre, cs_pre) {
            Option::Some(e) => r == Result::<(), Error>::Err(e) && post == pre && cs_post
                == cs_pre,
            Option::None => {
                let c = cs_pre.id;
                &&& r == Result::<(), Error>::Ok(())
                &&& cs_post == (ChangeSet { status: ChangeSetStatus::Applied, ..cs_pre })
                &&& post.head_docs() == apply_docs(pre.head_docs(), pre.cs_docs(c))
                &&& post.cs_docs(c) == Map::<Seq<char>, Doc>::empty()
                &&& forall|c2: u64| c2 != c ==> #[trigger] post.cs_docs(c2) == pre.cs_docs(c2)
                &&& forall|s: u64|
                    #[trigger] post.es_docs(s) == if terminated_by_apply(pre, c, s as int) {
                        Map::<Seq<char>, Doc>::empty()
                    } else {
                        pre.es_docs(s)
                    }
                &&& post.change_sets@ == pre.change_sets@.update(
                    c as int,
                    ChangeSet {
                        status: ChangeSetStatus::Applied,
                        ..pre.change_sets@[c as int]
                    },
                )
                &&& post.edit_sessions@.len() == pre.edit_sessions@.len()
                &&& forall|i: int|
                    0 <= i < pre.edit_sessions@.len() ==> #[trigger] post.edit_sessions@[i]
                        == if terminated_by_apply(pre, c, i) {
                        EditSession {
                            status: EditSessionStatus::Canceled,
                            ..pre.edit_sessions@[i]
                        }
                    } else {
                        pre.edit_sessions@[i]
                    }
                &&& post.pending@.len() >= pre.pending@.len()
                &&& post.pending@.take(pre.pending@.len() as int) == pre.pending@
                &&& forall|j: int|
                    pre.pending@.len() <= j < post.pending@.len() ==> (#[trigger] post.pending@[j]).tier
                        == Tier::Head && pre.cs_docs(c).contains_key(post.pending@[j].object_id@)
                        && post.pending@[j].doc == pre.cs_docs(c)[post.pending@[j].object_id@]
                &&& forall|oid: Seq<char>| #[trigger]
                    pre.cs_docs(c).contains_key(oid) ==> exists|j: int|
                        pre.pending@.len() <= j < post.pending@.len() && (
                        #[trigger] post.pending@[j]).object_id@ == oid
            },
        }
    }

    /// Apply the change set: in one atomic transaction, write every row of
    /// its tier as the new Head row for its object (a drafted tombstone
    /// deletes the Head row), delete the change-set tier, terminate every
    /// edit session still Open under it, and mark the change set Applied.
    /// A notification is queued for every Head row written or deleted.
    pub fn apply(&mut self, store: &mut Store) -> (r: Result<(), Error>)
        requires
            old(store).wf(),
        ensures
            final(store).wf(),
            ChangeSet::apply_post(*old(store), *final(store), *old(self), *final(self), r),
    {
        let c = self.id;
        if c >= store.change_sets.len() as u64 {
            return Result::Err(Error::NotFound);
        }
        if store.change_sets[c as usize].status != self.status {
            return Result::Err(Error::Conflict);
        }
        if !matches!(self.status, ChangeSetStatus::Open) {
            return Result::Err(Error::InvalidState);
        }
        let ghost pre = *store;
        let promoted = store.table.extract_tier(Tier::ChangeSet(c));
        proof {
            assert forall|oid: Seq<char>| #[trigger] docs_of(promoted@).contains_key(
                oid,
            ) implies docs_of(promoted@)[oid].wf() by {
                assert(pre.table@.contains_key((Tier::ChangeSet(c), oid)));
            }
        }
        let mut j: usize = 0;
        while j < promoted.len()
            invariant
                store.table.wf(),
                j <= promoted@.len(),
                unique_ids(promoted@),
                docs_of(promoted@) == pre.cs_docs(c),
                forall|oid: Seq<char>| #[trigger]
                    docs_of(promoted@).contains_key(oid) ==> docs_of(promoted@)[oid].wf(),
                pre.wf(),
                c < pre.change_sets@.len(),
                tier_docs(store.table@, Tier::Head) == apply_docs(
                    pre.head_docs(),
                    docs_of(promoted@.take(j as int)),
                ),
                tier_docs(store.table@, Tier::ChangeSet(c)) == Map::<Seq<char>, Doc>::empty(),
                forall|c2: u64|
                    c2 != c ==> #[trigger] tier_docs(store.table@, Tier::ChangeSet(c2))
                        == pre.cs_docs(c2),
                forall|s2: u64| #[trigger]
                    tier_docs(store.table@, Tier::EditSession(s2)) == pre.es_docs(s2),
                store.pending@.len() == pre.pending@.len() + j,
                store.pending@.take(pre.pending@.len() as int) == pre.pending@,
                forall|jj: int|
                    pre.pending@.len() <= jj < store.pending@.len() ==> (
                    #[trigger] store.pending@[jj]).tier == Tier::Head && docs_of(
                        promoted@,
                    ).contains_key(store.pending@[jj].object_id@) && store.pending@[jj].doc
                        == docs_of(promoted@)[store.pending@[jj].object_id@],
                forall|m: int|
                    0 <= m < j ==> (#[trigger] store.pending@[pre.pending@.len() + m]).object_id@
                        == promoted@[m].0@,
                store.change_sets == pre.change_sets,
                store.edit_sessions == pre.edit_sessions,
            decreases promoted@.len() - j,
        {
            let oid = promoted[j].0.clone();
            let d = promoted[j].1.clone();
            let ghost tpre = store.table@;
            proof {
                lemma_docs_index(promoted@, j as int);
                lemma_docs_contains(promoted@.take(j as int), oid@);
                assert(!docs_of(promoted@.take(j as int)).contains_key(oid@)) by {
                    if exists|m: int|
                        0 <= m < promoted@.take(j as int).len() && promoted@.take(
                            j as int,
                        )[m].0@ == oid@ {
                        let m = choose|m: int|
                            0 <= m < promoted@.take(j as int).len() && promoted@.take(
                                j as int,
                            )[m].0@ == oid@;
                        assert(promoted@[m].0@ == promoted@[j as int].0@);
                    }
                }
                lemma_apply_docs_step(
                    pre.head_docs(),
                    docs_of(promoted@.take(j as int)),
                    oid@,
                    d,
                );
                lemma_docs_take_push(promoted@, j as int);
            }
            match &d {
                Doc::Live(_) => {
                    store.table.upsert(Tier::Head, oid.clone(), d.clone());
                },
                Doc::Tombstone => {
                    store.table.delete(Tier::Head, &oid);
                },
            }
            store.pending.push(ChangeEvent { tier: Tier::Head, object_id: oid, doc: d });
            proof {
                assert(tier_docs(store.table@, Tier::Head) =~= apply_docs(
                    pre.head_docs(),
                    docs_of(promoted@.take(j as int + 1)),
                ));
                assert(tier_docs(store.table@, Tier::ChangeSet(c)) =~= Map::<
                    Seq<char>,
                    Doc,
                >::empty());
                assert forall|c2: u64| c2 != c implies #[trigger] tier_docs(
                    store.table@,
                    Tier::ChangeSet(c2),
                ) == pre.cs_docs(c2) by {
                    assert(tier_docs(store.table@, Tier::ChangeSet(c2)) =~= tier_docs(
                        tpre,
                        Tier::ChangeSet(c2),
                    ));
                }
                assert forall|s2: u64| #[trigger] tier_docs(
                    store.table@,
                    Tier::EditSession(s2),
                ) == pre.es_docs(s2) by {
                    assert(tier_docs(store.table@, Tier::EditSession(s2)) =~= tier_docs(
                        tpre,
                        Tier::EditSession(s2),
                    ));
                }
                assert(store.pending@.take(pre.pending@.len() as int) =~= pre.pending@);
            }
            j = j + 1;
        }
        let ghost after_head = *store;
        proof {
            assert(promoted@.take(promoted@.len() as int) =~= promoted@);
        }
        let mut i: usize = 0;
        while i < store.edit_sessions.len()
            invariant
                store.table.wf(),
                i <= store.edit_sessions@.len(),
                pre.wf(),
                c < pre.change_sets@.len(),
                store.edit_sessions@.len() == pre.edit_sessions@.len(),
                forall|m: int|
                    0 <= m < i ==> #[trigger] store.edit_sessions@[m] == if terminated_by_apply(
                        pre,
                        c,
                        m,
                    ) {
                        EditSession {
                            status: EditSessionStatus::Canceled,
                            ..pre.edit_sessions@[m]
                        }
                    } else {
                        pre.edit_sessions@[m]
                    },
                forall|m: int|
                    i <= m < pre.edit_sessions@.len() ==> #[trigger] store.edit_sessions@[m]
                        == pre.edit_sessions@[m],
                forall|s2: u64|
                    #[trigger] tier_docs(store.table@, Tier::EditSession(s2)) == if s2 < i
                        && terminated_by_apply(pre, c, s2 as int) {
                        Map::<Seq<char>, Doc>::empty()
                    } else {
                        pre.es_docs(s2)
                    },
                tier_docs(store.table@, Tier::Head) == tier_docs(after_head.table@, Tier::Head),
                tier_docs(store.table@, Tier::ChangeSet(c)) == Map::<Seq<char>, Doc>::empty(),
                forall|c2: u64|
                    c2 != c ==> #[trigger] tier_docs(store.table@, Tier::ChangeSet(c2))
                        == pre.cs_docs(c2),
                store.change_sets == pre.change_sets,
                store.pending == after_head.pending,
            decreases store.edit_sessions@.len() - i,
        {
            let sess = store.edit_sessions[i];
            if sess.change_set_id == c && matches!(sess.status, EditSessionStatus::Open) {
                let ghost tpre = store.table@;
                let _discarded = store.table.extract_tier(Tier::EditSession(sess.id));
                let terminated = EditSession { status: EditSessionStatus::Canceled, ..sess };
                store.edit_sessions.set(i, terminated);
                proof {
                    assert(sess.id == i as u64);
                    assert(tier_docs(store.table@, Tier::Head) =~= tier_docs(tpre, Tier::Head));
                    assert(tier_docs(store.table@, Tier::ChangeSet(c)) =~= tier_docs(
                        tpre,
                        Tier::ChangeSet(c),
                    ));
                    assert forall|c2: u64| c2 != c implies #[trigger] tier_docs(
                        store.table@,
                        Tier::ChangeSet(c2),
                    ) == pre.cs_docs(c2) by {
                        assert(tier_docs(store.table@, Tier::ChangeSet(c2)) =~= tier_docs(
                            tpre,
                            Tier::ChangeSet(c2),
                        ));
                    }
                    assert forall|s2: u64| s2 != sess.id implies #[trigger] tier_docs(
                        store.table@,
                        Tier::EditSession(s2),
                    ) == tier_docs(tpre, Tier::EditSession(s2)) by {
                        assert(tier_docs(store.table@, Tier::EditSession(s2)) =~= tier_docs(
                            tpre,
                            Tier::EditSession(s2),
                        ));
                    }
                }
            }
            i = i + 1;
        }
        self.status = ChangeSetStatus::Applied;
        let stored = store.change_sets[c as usize].clone();
        store.change_sets.set(
            c as usize,
            ChangeSet {
                id: stored.id,
                name: stored.name,
                workspace_id: stored.workspace_id,
                status: ChangeSetStatus::Applied,
                created_at: stored.created_at,
            },
        );
        proof {
            assert(store.head_docs() == apply_docs(pre.head_docs(), pre.cs_docs(c)));
            assert forall|oid: Seq<char>| #[trigger] store.head_docs().contains_key(
                oid,
            ) implies (pre.head_docs().contains_key(oid) && store.head_docs()[oid]
                == pre.head_docs()[oid]) || (pre.cs_docs(c).contains_key(oid)
                && store.head_docs()[oid] == pre.cs_docs(c)[oid] && pre.cs_docs(c)[oid]
                is Live) by {}
            assert forall|s2: u64|
                #[trigger] store.es_docs(s2) == if terminated_by_apply(pre, c, s2 as int) {
                    Map::<Seq<char>, Doc>::empty()
                } else {
                    pre.es_docs(s2)
                } by {}
            lemma_wf_after_change_set_terminal(pre, *store, c, ChangeSetStatus::Applied);
            assert forall|oid: Seq<char>| #[trigger] pre.cs_docs(c).contains_key(
                oid,
            ) implies exists|j2: int|
                pre.pending@.len() <= j2 < store.pending@.len() && (
                #[trigger] store.pending@[j2]).object_id@ == oid by {
                lemma_docs_contains(promoted@, oid);
                let m = choose|m: int| 0 <= m < promoted@.len() && promoted@[m].0@ == oid;
                assert(store.pending@[pre.pending@.len() + m].object_id@ == oid);
            }
        }
        Result::Ok(())
    }

    /// The full contract of `abandon`.
    pub open spec fn abandon_post(
        pre: Store,
        post: Store,
        cs_pre: ChangeSet,
        cs_post: ChangeSet,
        r: Result<(), Error>,
    ) -> bool {
        match ChangeSet::gate(pre, cs_pre) {
            Option::Some(e) => r == Result::<(), Error>::Err(e) && post == pre && cs_post
                == cs_pre,
            Option::None => {
                let c = cs_pre.id;
                &&& r == Result::<(), Error>::Ok(())
                &&& cs_post == (ChangeSet { status: ChangeSetStatus::Abandoned, ..cs_pre })
                &&& post.head_docs() == pre.head_docs()
                &&& post.cs_docs(c) == Map::<Seq<char>, Doc>::empty()
                &&& forall|c2: u64| c2 != c ==> #[trigger] post.cs_docs(c2) == pre.cs_docs(c2)
                &&& forall|s: u64|
                    #[trigger] post.es_docs(s) == if terminated_by_apply(pre, c, s as int) {
                        Map::<Seq<char>, Doc>::empty()
                    } else {
                        pre.es_docs(s)
                    }
                &&& post.change_sets@ == pre.change_sets@.update(
                    c as int,
                    ChangeSet {
                        status: ChangeSetStatus::Abandoned,
                        ..pre.change_sets@[c as int]
                    },
                )
                &&& post.edit_sessions@.len() == pre.edit_sessions@.len()
                &&& forall|i: int|
                    0 <= i < pre.edit_sessions@.len() ==> #[trigger] post.edit_sessions@[i]
                        == if terminated_by_apply(pre, c, i) {
                        EditSession {
                            status: EditSessionStatus::Canceled,
                            ..pre.edit_sessions@[i]
                        }
                    } else {
                        pre.edit_sessions@[i]
                    }
                &&& post.pending@.len() >= pre.pending@.len()
                &&& post.pending@.take(pre.pending@.len() as int) == pre.pending@
                &&& forall|j: int|
                    pre.pending@.len() <= j < post.pending@.len() ==> (#[trigger] post.pending@[j]).tier
                        == Tier::ChangeSet(c) && pre.cs_docs(c).contains_key(
                        post.pending@[j].object_id@,
                    ) && post.pending@[j].doc == Doc::Tombstone
                &&& forall|oid: Seq<char>| #[trigger]
                    pre.cs_docs(c).contains_key(oid) ==> exists|j: int|
                        pre.pending@.len() <= j < post.pending@.len() && (
                        #[trigger] post.pending@[j]).object_id@ == oid
            },
        }
    }

    /// Abandon the change set: discard every row of its tier without
    /// touching Head, terminate every edit session still Open under it,
    /// and mark the change set Abandoned. A deletion-marker notification
    /// is queued for every discarded row.
    pub fn abandon(&mut self, store: &mut Store) -> (r: Result<(), Error>)
        requires
            old(store).wf(),
        ensures
            final(store).wf(),
            ChangeSet::abandon_post(*old(store), *final(store), *old(self), *final(self), r),
    {
        let c = self.id;
        if c >= store.change_sets.len() as u64 {
            return Result::Err(Error::NotFound);
        }
        if store.change_sets[c as usize].status != self.status {
            return Result::Err(Error::Conflict);
        }
        if !matches!(self.status, ChangeSetStatus::Open) {
            return Result::Err(Error::InvalidState);
        }
        let ghost pre = *store;
        let discarded = store.table.extract_tier(Tier::ChangeSet(c));
        let mut j: usize = 0;
        while j < discarded.len()
            invariant
                store.table.wf(),
                j <= discarded@.len(),
                unique_ids(discarded@),
                docs_of(discarded@) == pre.cs_docs(c),
                store.table@ == drop_tier(pre.table@, Tier::ChangeSet(c)),
                store.pending@.len() == pre.pending@.len() + j,
                store.pending@.take(pre.pending@.len() as int) == pre.pending@,
                forall|jj: int|
                    pre.pending@.len() <= jj < store.pending@.len() ==> (
                    #[trigger] store.pending@[jj]).tier == Tier::ChangeSet(c) && docs_of(
                        discarded@,
                    ).contains_key(store.pending@[jj].object_id@) && store.pending@[jj].doc
                        == Doc::Tombstone,
                forall|m: int|
                    0 <= m < j ==> (#[trigger] store.pending@[pre.pending@.len() + m]).object_id@
                        == discarded@[m].0@,
                store.change_sets == pre.change_sets,
                store.edit_sessions == pre.edit_sessions,
            decreases discarded@.len() - j,
        {
            let oid = discarded[j].0.clone();
            proof {
                lemma_docs_index(discarded@, j as int);
            }
            store.pending.push(
                ChangeEvent { tier: Tier::ChangeSet(c), object_id: oid, doc: Doc::Tombstone },
            );
            proof {
                assert(store.pending@.take(pre.pending@.len() as int) =~= pre.pending@);
            }
            j = j + 1;
        }
        let ghost after_drop = *store;
        let mut i: usize = 0;
        while i < store.edit_sessions.len()
            invariant
                store.table.wf(),
                i <= store.edit_sessions@.len(),
                pre.wf(),
                c < pre.change_sets@.len(),
                store.edit_sessions@.len() == pre.edit_sessions@.len(),
                forall|m: int|
                    0 <= m < i ==> #[trigger] store.edit_sessions@[m] == if terminated_by_apply(
                        pre,
                        c,
                        m,
                    ) {
                        EditSession {
                            status: EditSessionStatus::Canceled,
                            ..pre.edit_sessions@[m]
                        }
                    } else {
                        pre.edit_sessions@[m]
                    },
                forall|m: int|
                    i <= m < pre.edit_sessions@.len() ==> #[trigger] store.edit_sessions@[m]
                        == pre.edit_sessions@[m],
                forall|s2: u64|
                    #[trigger] tier_docs(store.table@, Tier::EditSession(s2)) == if s2 < i
                        && terminated_by_apply(pre, c, s2 as int) {
                        Map::<Seq<char>, Doc>::empty()
                    } else {
                        pre.es_docs(s2)
                    },
                tier_docs(store.table@, Tier::Head) == pre.head_docs(),
                tier_docs(store.table@, Tier::ChangeSet(c)) == Map::<Seq<char>, Doc>::empty(),
                forall|c2: u64|
                    c2 != c ==> #[trigger] tier_docs(store.table@, Tier::ChangeSet(c2))
                        == pre.cs_docs(c2),
                store.change_sets == pre.change_sets,
                store.pending == after_drop.pending,
            decreases store.edit_sessions@.len() - i,
        {
            let sess = store.edit_sessions[i];
            if sess.change_set_id == c && matches!(sess.status, EditSessionStatus::Open) {
                let ghost tpre = store.table@;
                let _drafts = store.table.extract_tier(Tier::EditSession(sess.id));
                let terminated = EditSession { status: EditSessionStatus::Canceled, ..sess };
                store.edit_sessions.set(i, terminated);
                proof {
                    assert(sess.id == i as u64);
                    assert(tier_docs(store.table@, Tier::Head) =~= tier_docs(tpre, Tier::Head));
                    assert(tier_docs(store.table@, Tier::ChangeSet(c)) =~= tier_docs(
                        tpre,
                        Tier::ChangeSet(c),
                    ));
                    assert forall|c2: u64| c2 != c implies #[trigger] tier_docs(
                        store.table@,
                        Tier::ChangeSet(c2),
                    ) == pre.cs_docs(c2) by {
                        assert(tier_docs(store.table@, Tier::ChangeSet(c2)) =~= tier_docs(
                            tpre,
                            Tier::ChangeSet(c2),
                        ));
                    }
                    assert forall|s2: u64| s2 != sess.id implies #[trigger] tier_docs(
                        store.table@,
                        Tier::EditSession(s2),
                    ) == tier_docs(tpre, Tier::EditSession(s2)) by {
                        assert(tier_docs(store.table@, Tier::EditSession(s2)) =~= tier_docs(
                            tpre,
                            Tier::EditSession(s2),
                        ));
                    }
                }
            }
            i = i + 1;
        }
        self.status = ChangeSetStatus::Abandoned;
        let stored = store.change_sets[c as usize].clone();
        store.change_sets.set(
            c as usize,
            ChangeSet {
                id: stored.id,
                name: stored.name,
                workspace_id: stored.workspace_id,
                status: ChangeSetStatus::Abandoned,
                created_at: stored.created_at,
            },
        );
        proof {
            assert(store.head_docs() == pre.head_docs());
            assert forall|oid: Seq<char>| #[trigger] store.head_docs().contains_key(
                oid,
            ) implies (pre.head_docs().contains_key(oid) && store.head_docs()[oid]
                == pre.head_docs()[oid]) || (pre.cs_docs(c).contains_key(oid)
                && store.head_docs()[oid] == pre.cs_docs(c)[oid] && pre.cs_docs(c)[oid]
                is Live) by {}
            assert forall|s2: u64|
                #[trigger] store.es_docs(s2) == if terminated_by_apply(pre, c, s2 as int) {
                    Map::<Seq<char>, Doc>::empty()
                } else {
                    pre.es_docs(s2)
                } by {}
            lemma_wf_after_change_set_terminal(pre, *store, c, ChangeSetStatus::Abandoned);
            assert forall|oid: Seq<char>| #[trigger] pre.cs_docs(c).contains_key(
                oid,
            ) implies exists|j2: int|
                pre.pending@.len() <= j2 < store.pending@.len() && (
                #[trigger] store.pending@[j2]).object_id@ == oid by {
                lemma_docs_contains(discarded@, oid);
                let m = choose|m: int| 0 <= m < discarded@.len() && discarded@[m].0@ == oid;
                assert(store.pending@[pre.pending@.len() + m].object_id@ == oid);
            }
        }
        Result::Ok(())
    }
}

} // verus!
