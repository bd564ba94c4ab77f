//! The isolation and promotion guarantees of the store, stated as proved
//! laws over the operations' contracts.

use vstd::prelude::*;
use crate::change_set::ChangeSet;
use crate::edit_session::EditSession;
use crate::record::{Doc, Record};
use crate::store::{doc_to_resolved, Error, Store};

verus! {

/// While an edit session holds a live draft for an object, resolving the
/// object in that session's context returns that draft — never the
/// change-set or Head value, whatever those tiers hold.
pub proof fn lemma_draft_shadows_lower_tiers(store: Store, oid: Seq<char>, s: u64, rec: Record)
    requires
        store.wf(),
        s < store.edit_sessions@.len(),
        store.edit_sessions@[s as int].status is Open,
        store.es_docs(s).contains_key(oid),
        store.es_docs(s)[oid] == Doc::Live(rec),
    ensures
        forall|cs: Option<u64>|
            store.spec_resolve(oid, cs, Option::Some(s)) == Option::Some(rec),
{
}

/// A draft lands where it was written: after a successful write to an
/// Open session, resolving in that session's context returns the new
/// draft, under any change-set context.
pub proof fn lemma_write_then_resolve(
    pre: Store,
    post: Store,
    oid: Seq<char>,
    s: u64,
    m: crate::record::Mutation,
    rec: Record,
)
    requires
        pre.wf(),
        Store::write_post(pre, post, oid, s, m, Result::Ok(Option::Some(rec))),
    ensures
        forall|cs: Option<u64>| post.spec_resolve(oid, cs, Option::Some(s)) == Option::Some(rec),
{
}

/// Concurrent sessions are isolated: a draft written in one edit session
/// changes nothing that any other session's context — under the same or a
/// different change set — resolves, nor what any change-set-only or
/// Head-only context resolves.
pub proof fn lemma_sessions_isolated(
    pre: Store,
    post: Store,
    oid: Seq<char>,
    s: u64,
    m: crate::record::Mutation,
    r: Result<Option<Record>, Error>,
    oid2: Seq<char>,
    cs2: Option<u64>,
    s2: u64,
)
    requires
        pre.wf(),
        Store::write_post(pre, post, oid, s, m, r),
        s2 != s,
    ensures
        post.spec_resolve(oid2, cs2, Option::Some(s2)) == pre.spec_resolve(
            oid2,
            cs2,
            Option::Some(s2),
        ),
        post.spec_resolve(oid2, cs2, Option::None) == pre.spec_resolve(oid2, cs2, Option::None),
{
}

/// When neither the session tier nor the change-set tier has a row for an
/// object, resolution falls back to Head; and when Head has none either,
/// the object does not resolve at all.
pub proof fn lemma_resolve_falls_back_to_head(
    store: Store,
    oid: Seq<char>,
    cs: Option<u64>,
    es: Option<u64>,
)
    requires
        store.wf(),
        es matches Option::Some(s) ==> !store.es_docs(s).contains_key(oid),
        cs matches Option::Some(c) ==> !store.cs_docs(c).contains_key(oid),
    ensures
        store.head_docs().contains_key(oid) ==> store.spec_resolve(oid, cs, es)
            == doc_to_resolved(store.head_docs()[oid]) && store.spec_resolve(oid, cs, es)
            is Some,
        !store.head_docs().contains_key(oid) ==> store.spec_resolve(oid, cs, es) is None,
{
}

/// Saving a session is idempotent: a second `save_session` with no
/// intervening write is refused as `InvalidState` and leaves the
/// change-set tier (and the rest of the store) exactly as the first save
/// left it; and re-promoting the now-empty session tier would change
/// nothing anyway.
pub proof fn lemma_save_session_idempotent(
    s0: Store,
    s1: Store,
    s2: Store,
    es0: EditSession,
    es1: EditSession,
    es2: EditSession,
    r2: Result<(), Error>,
)
    requires
        EditSession::save_session_post(s0, s1, es0, es1, Result::Ok(())),
        EditSession::save_session_post(s1, s2, es1, es2, r2),
    ensures
        r2 == Result::<(), Error>::Err(Error::InvalidState),
        s2 == s1,
        forall|c: u64| s2.cs_docs(c) == s1.cs_docs(c),
        s1.cs_docs(es1.change_set_id).union_prefer_right(s1.es_docs(es1.id)) == s1.cs_docs(
            es1.change_set_id,
        ),
{
    assert(EditSession::gate(s0, es0) is None);
    assert(s1.edit_sessions@[es1.id as int] == es1);
    assert(EditSession::gate(s1, es1) == Option::Some(Error::InvalidState));
    assert(s1.cs_docs(es1.change_set_id).union_prefer_right(s1.es_docs(es1.id)) =~= s1.cs_docs(
        es1.change_set_id,
    ));
}

/// Applying a change set whose drafts are all live writes exactly those
/// drafts as Head rows — no more, no fewer — and leaves its own tier
/// empty; a second apply is refused as `InvalidState` and changes nothing.
pub proof fn lemma_apply_promotes_all(
    s0: Store,
    s1: Store,
    cs0: ChangeSet,
    cs1: ChangeSet,
)
    requires
        ChangeSet::apply_post(s0, s1, cs0, cs1, Result::Ok(())),
        forall|oid: Seq<char>| #[trigger]
            s0.cs_docs(cs0.id).contains_key(oid) ==> s0.cs_docs(cs0.id)[oid] is Live,
    ensures
        forall|oid: Seq<char>| #[trigger]
            s0.cs_docs(cs0.id).contains_key(oid) ==> s1.head_docs().contains_key(oid)
                && s1.head_docs()[oid] == s0.cs_docs(cs0.id)[oid],
        forall|oid: Seq<char>|
            !(#[trigger] s0.cs_docs(cs0.id).contains_key(oid)) ==> s1.head_docs().contains_key(
                oid,
            ) == s0.head_docs().contains_key(oid) && (s0.head_docs().contains_key(oid)
                ==> s1.head_docs()[oid] == s0.head_docs()[oid]),
        s1.head_docs().dom() == s0.head_docs().dom().union(s0.cs_docs(cs0.id).dom()),
        s1.cs_docs(cs0.id) == Map::<Seq<char>, Doc>::empty(),
        forall|s2: Store, cs2: ChangeSet, r2: Result<(), Error>|
            #[trigger] ChangeSet::apply_post(s1, s2, cs1, cs2, r2) ==> r2 == Result::<
                (),
                Error,
            >::Err(Error::InvalidState) && s2 == s1,
{
    assert(s1.head_docs().dom() =~= s0.head_docs().dom().union(s0.cs_docs(cs0.id).dom()));
    assert(s1.change_sets@[cs1.id as int].status == cs1.status);
    assert forall|s2: Store, cs2: ChangeSet, r2: Result<(), Error>|
        #[trigger] ChangeSet::apply_post(s1, s2, cs1, cs2, r2) implies r2 == Result::<
        (),
        Error,
    >::Err(Error::InvalidState) && s2 == s1 by {
        assert(ChangeSet::gate(s1, cs1) == Option::Some(Error::InvalidState));
    }
}

/// Canceling a session removes all of that session's draft rows and
/// nothing else: every change-set tier and the Head tier are untouched.
pub proof fn lemma_cancel_touches_only_drafts(
    s0: Store,
    s1: Store,
    es0: EditSession,
    es1: EditSession,
)
    requires
        EditSession::cancel_post(s0, s1, es0, es1, Result::Ok(())),
    ensures
        s1.es_docs(es0.id) == Map::<Seq<char>, Doc>::empty(),
        forall|c: u64| #[trigger] s1.cs_docs(c) == s0.cs_docs(c),
        s1.head_docs() == s0.head_docs(),
{
}

} // verus!
