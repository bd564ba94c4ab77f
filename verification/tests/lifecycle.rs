use tierstore::change_set::{ChangeSet, ChangeSetStatus};
use tierstore::edit_session::{EditSession, EditSessionStatus};
use tierstore::record::{Doc, Mutation, Payload, PayloadData, Record, RecordKind};
use tierstore::store::{Error, Store};
use tierstore::table::Tier;

fn entity(name: &str) -> Record {
    Record {
        kind: RecordKind::Entity,
        payload: Payload {
            name: name.to_string(),
            data: PayloadData::Application,
        },
        edge: None,
    }
}

fn open_pair(store: &mut Store) -> (ChangeSet, EditSession) {
    let cs = ChangeSet::new(store, None, 1, 100);
    let es = EditSession::new(store, cs.id, 1).expect("session under fresh change set");
    (cs, es)
}

fn rows_at(store: &Store, tier: Tier) -> usize {
    store
        .table
        .rows
        .iter()
        .filter(|row| row.tier == tier)
        .count()
}

#[test]
fn end_to_end_draft_save_apply() {
    let mut store = Store::new();
    let (mut c1, mut s1) = open_pair(&mut store);

    let written = store
        .write(
            &"app-1".to_string(),
            s1.id,
            Mutation::Replace(entity("app-1")),
        )
        .expect("write in open session")
        .expect("replace returns the draft");
    assert_eq!(written.payload.name, "app-1");

    // The draft is visible only in the session's context.
    let in_session = store
        .resolve(&"app-1".to_string(), Some(c1.id), Some(s1.id))
        .expect("draft resolves in session context");
    assert_eq!(in_session, written);
    assert_eq!(
        store.resolve(&"app-1".to_string(), Some(c1.id), None),
        Err(Error::NotFound)
    );
    assert_eq!(
        store.resolve(&"app-1".to_string(), None, None),
        Err(Error::NotFound)
    );

    // Saving promotes the draft into the change-set tier.
    s1.save_session(&mut store).expect("save open session");
    assert_eq!(s1.status, EditSessionStatus::Saved);
    let in_change_set = store
        .resolve(&"app-1".to_string(), Some(c1.id), None)
        .expect("saved draft resolves in change-set context");
    assert_eq!(in_change_set, written);
    assert_eq!(
        store.resolve(&"app-1".to_string(), None, None),
        Err(Error::NotFound)
    );

    // Applying promotes the change-set tier into Head.
    c1.apply(&mut store).expect("apply open change set");
    assert_eq!(c1.status, ChangeSetStatus::Applied);
    let at_head = store
        .resolve(&"app-1".to_string(), None, None)
        .expect("applied draft resolves at Head");
    assert_eq!(at_head, written);

    // A second apply is refused.
    assert_eq!(c1.apply(&mut store), Err(Error::InvalidState));
}

#[test]
fn draft_shadows_change_set_and_head() {
    let mut store = Store::new();
    let (mut c1, mut s1) = open_pair(&mut store);
    store
        .write(&"web".to_string(), s1.id, Mutation::Replace(entity("web")))
        .unwrap();
    s1.save_session(&mut store).unwrap();
    c1.apply(&mut store).unwrap();

    // A second round: rename the entity in a fresh session.
    let (c2, s2) = open_pair(&mut store);
    store
        .write(
            &"web".to_string(),
            s2.id,
            Mutation::Rename("web-renamed".to_string()),
        )
        .unwrap();

    let in_session = store
        .resolve(&"web".to_string(), Some(c2.id), Some(s2.id))
        .unwrap();
    assert_eq!(in_session.payload.name, "web-renamed");
    // Copy-on-write: the draft inherited the rest of the record.
    assert_eq!(in_session.kind, RecordKind::Entity);
    assert_eq!(in_session.payload.data, PayloadData::Application);

    // Outside the session the old value is untouched.
    let in_change_set = store.resolve(&"web".to_string(), Some(c2.id), None).unwrap();
    assert_eq!(in_change_set.payload.name, "web");
    let at_head = store.resolve(&"web".to_string(), None, None).unwrap();
    assert_eq!(at_head.payload.name, "web");
}

#[test]
fn resolve_falls_back_to_head_and_fails_when_absent() {
    let mut store = Store::new();
    let (mut c1, mut s1) = open_pair(&mut store);
    store
        .write(&"db".to_string(), s1.id, Mutation::Replace(entity("db")))
        .unwrap();
    s1.save_session(&mut store).unwrap();
    c1.apply(&mut store).unwrap();

    // A context with no rows of its own falls back to Head.
    let (c2, s2) = open_pair(&mut store);
    let resolved = store.resolve(&"db".to_string(), Some(c2.id), Some(s2.id)).unwrap();
    assert_eq!(resolved.payload.name, "db");

    // An object nowhere at all is NotFound.
    assert_eq!(
        store.resolve(&"missing".to_string(), Some(c2.id), Some(s2.id)),
        Err(Error::NotFound)
    );
}

#[test]
fn save_session_is_idempotent() {
    let mut store = Store::new();
    let (c1, mut s1) = open_pair(&mut store);
    store
        .write(&"svc".to_string(), s1.id, Mutation::Replace(entity("svc")))
        .unwrap();
    s1.save_session(&mut store).unwrap();

    let after_first = store
        .resolve(&"svc".to_string(), Some(c1.id), None)
        .unwrap();
    let rows_after_first = rows_at(&store, Tier::ChangeSet(c1.id));

    // A second save with no intervening write is refused and changes
    // nothing in the change-set tier.
    assert_eq!(s1.save_session(&mut store), Err(Error::InvalidState));
    let after_second = store
        .resolve(&"svc".to_string(), Some(c1.id), None)
        .unwrap();
    assert_eq!(after_first, after_second);
    assert_eq!(rows_after_first, rows_at(&store, Tier::ChangeSet(c1.id)));
}

#[test]
fn apply_promotes_every_draft_and_empties_the_tier() {
    let mut store = Store::new();
    let (mut c1, mut s1) = open_pair(&mut store);
    store
        .write(&"a".to_string(), s1.id, Mutation::Replace(entity("a")))
        .unwrap();
    store
        .write(&"b".to_string(), s1.id, Mutation::Replace(entity("b")))
        .unwrap();
    store
        .write(&"c".to_string(), s1.id, Mutation::Replace(entity("c")))
        .unwrap();
    s1.save_session(&mut store).unwrap();
    assert_eq!(rows_at(&store, Tier::ChangeSet(c1.id)), 3);

    c1.apply(&mut store).unwrap();

    // Exactly the three drafted objects became Head rows, and the
    // change-set tier is empty.
    assert_eq!(rows_at(&store, Tier::Head), 3);
    assert_eq!(rows_at(&store, Tier::ChangeSet(c1.id)), 0);
    for name in ["a", "b", "c"] {
        let rec = store.resolve(&name.to_string(), None, None).unwrap();
        assert_eq!(rec.payload.name, name);
    }
    assert_eq!(c1.apply(&mut store), Err(Error::InvalidState));
}

#[test]
fn apply_overwrites_existing_head_rows() {
    let mut store = Store::new();
    let (mut c1, mut s1) = open_pair(&mut store);
    store
        .write(&"x".to_string(), s1.id, Mutation::Replace(entity("x")))
        .unwrap();
    s1.save_session(&mut store).unwrap();
    c1.apply(&mut store).unwrap();

    let (mut c2, mut s2) = open_pair(&mut store);
    store
        .write(&"x".to_string(), s2.id, Mutation::Rename("x2".to_string()))
        .unwrap();
    s2.save_session(&mut store).unwrap();
    c2.apply(&mut store).unwrap();

    assert_eq!(rows_at(&store, Tier::Head), 1);
    let rec = store.resolve(&"x".to_string(), None, None).unwrap();
    assert_eq!(rec.payload.name, "x2");
}

#[test]
fn delete_draft_tombstones_and_apply_removes_head_row() {
    let mut store = Store::new();
    let (mut c1, mut s1) = open_pair(&mut store);
    store
        .write(&"gone".to_string(), s1.id, Mutation::Replace(entity("gone")))
        .unwrap();
    s1.save_session(&mut store).unwrap();
    c1.apply(&mut store).unwrap();
    assert!(store.resolve(&"gone".to_string(), None, None).is_ok());

    let (mut c2, mut s2) = open_pair(&mut store);
    let deleted = store
        .write(&"gone".to_string(), s2.id, Mutation::Delete)
        .unwrap();
    assert_eq!(deleted, None);
    // The tombstone hides the object in the session context without
    // falling back to Head.
    assert_eq!(
        store.resolve(&"gone".to_string(), Some(c2.id), Some(s2.id)),
        Err(Error::NotFound)
    );
    // Head still has it.
    assert!(store.resolve(&"gone".to_string(), None, None).is_ok());

    s2.save_session(&mut store).unwrap();
    c2.apply(&mut store).unwrap();
    assert_eq!(
        store.resolve(&"gone".to_string(), None, None),
        Err(Error::NotFound)
    );
    assert_eq!(rows_at(&store, Tier::Head), 0);
}

#[test]
fn cancel_discards_drafts_and_leaves_change_set_tier_unchanged() {
    let mut store = Store::new();
    let (c1, mut s1) = open_pair(&mut store);
    store
        .write(&"keep".to_string(), s1.id, Mutation::Replace(entity("keep")))
        .unwrap();
    s1.save_session(&mut store).unwrap();

    let mut s2 = EditSession::new(&mut store, c1.id, 1).unwrap();
    store
        .write(
            &"keep".to_string(),
            s2.id,
            Mutation::Rename("discarded".to_string()),
        )
        .unwrap();
    let cs_rows_before = rows_at(&store, Tier::ChangeSet(c1.id));

    s2.cancel(&mut store).unwrap();
    assert_eq!(s2.status, EditSessionStatus::Canceled);
    assert_eq!(rows_at(&store, Tier::EditSession(s2.id)), 0);
    assert_eq!(rows_at(&store, Tier::ChangeSet(c1.id)), cs_rows_before);
    let kept = store.resolve(&"keep".to_string(), Some(c1.id), None).unwrap();
    assert_eq!(kept.payload.name, "keep");

    // Canceling twice is refused.
    assert_eq!(s2.cancel(&mut store), Err(Error::InvalidState));
}

#[test]
fn apply_terminates_open_sessions_under_the_change_set() {
    let mut store = Store::new();
    let (mut c1, mut s1) = open_pair(&mut store);
    store
        .write(&"p".to_string(), s1.id, Mutation::Replace(entity("p")))
        .unwrap();
    s1.save_session(&mut store).unwrap();

    // A second session under the same change set, still open with a draft.
    let s2 = EditSession::new(&mut store, c1.id, 1).unwrap();
    store
        .write(&"q".to_string(), s2.id, Mutation::Replace(entity("q")))
        .unwrap();

    c1.apply(&mut store).unwrap();
    assert_eq!(
        store.edit_sessions[s2.id as usize].status,
        EditSessionStatus::Canceled
    );
    assert_eq!(rows_at(&store, Tier::EditSession(s2.id)), 0);
    // The unsaved draft never reached Head.
    assert_eq!(store.resolve(&"q".to_string(), None, None), Err(Error::NotFound));
}

#[test]
fn abandon_discards_the_tier_without_touching_head() {
    let mut store = Store::new();
    let (mut c1, mut s1) = open_pair(&mut store);
    store
        .write(&"h".to_string(), s1.id, Mutation::Replace(entity("h")))
        .unwrap();
    s1.save_session(&mut store).unwrap();
    c1.apply(&mut store).unwrap();

    let (mut c2, mut s2) = open_pair(&mut store);
    store
        .write(&"h".to_string(), s2.id, Mutation::Rename("h2".to_string()))
        .unwrap();
    s2.save_session(&mut store).unwrap();

    c2.abandon(&mut store).unwrap();
    assert_eq!(c2.status, ChangeSetStatus::Abandoned);
    assert_eq!(rows_at(&store, Tier::ChangeSet(c2.id)), 0);
    let rec = store.resolve(&"h".to_string(), None, None).unwrap();
    assert_eq!(rec.payload.name, "h");
    assert_eq!(c2.abandon(&mut store), Err(Error::InvalidState));
}

#[test]
fn concurrent_sessions_never_see_each_other() {
    let mut store = Store::new();
    let (c1, s1) = open_pair(&mut store);
    let s2 = EditSession::new(&mut store, c1.id, 1).unwrap();

    store
        .write(&"shared".to_string(), s1.id, Mutation::Replace(entity("mine")))
        .unwrap();

    // The other session, under the same change set, sees nothing.
    assert_eq!(
        store.resolve(&"shared".to_string(), Some(c1.id), Some(s2.id)),
        Err(Error::NotFound)
    );
    // A session under a different change set sees nothing either.
    let (c2, s3) = open_pair(&mut store);
    assert_eq!(
        store.resolve(&"shared".to_string(), Some(c2.id), Some(s3.id)),
        Err(Error::NotFound)
    );
}

#[test]
fn concurrent_transition_loses_with_conflict() {
    let mut store = Store::new();
    let (_c1, s1) = open_pair(&mut store);

    // Two copies of the same session row, as two callers would hold.
    let mut first = s1;
    let mut second = s1;
    first.cancel(&mut store).unwrap();

    // The second caller still believes the session is Open; its copy no
    // longer matches the stored row, so it lost the race.
    assert_eq!(second.save_session(&mut store), Err(Error::Conflict));
    assert_eq!(second.cancel(&mut store), Err(Error::Conflict));
}

#[test]
fn write_rejects_bad_sessions_and_bad_records() {
    let mut store = Store::new();
    assert_eq!(
        store.write(&"o".to_string(), 7, Mutation::Replace(entity("o"))),
        Err(Error::NotFound)
    );

    let (_c1, mut s1) = open_pair(&mut store);
    // A record claiming to be an entity but carrying edge data does not
    // fit its declared kind.
    let bad = Record {
        kind: RecordKind::Entity,
        payload: Payload {
            name: "bad".to_string(),
            data: PayloadData::Service,
        },
        edge: Some(tierstore::record::EdgeData {
            edge_kind: "Includes".to_string(),
            tail: tierstore::record::VertexRef {
                object_id: "a".to_string(),
            },
            head: tierstore::record::VertexRef {
                object_id: "b".to_string(),
            },
        }),
    };
    assert_eq!(
        store.write(&"bad".to_string(), s1.id, Mutation::Replace(bad)),
        Err(Error::Serialization)
    );

    // Renaming or deleting an object with no ancestor anywhere fails.
    assert_eq!(
        store.write(&"ghost".to_string(), s1.id, Mutation::Rename("g".to_string())),
        Err(Error::NotFound)
    );
    assert_eq!(
        store.write(&"ghost".to_string(), s1.id, Mutation::Delete),
        Err(Error::NotFound)
    );

    // Writes to a terminal session are refused.
    s1.cancel(&mut store).unwrap();
    assert_eq!(
        store.write(&"o".to_string(), s1.id, Mutation::Replace(entity("o"))),
        Err(Error::InvalidState)
    );
}

#[test]
fn events_queue_after_each_mutation_and_drain() {
    let mut store = Store::new();
    let (mut c1, mut s1) = open_pair(&mut store);
    store
        .write(&"ev".to_string(), s1.id, Mutation::Replace(entity("ev")))
        .unwrap();
    assert_eq!(store.pending_events().len(), 1);
    assert_eq!(store.pending_events()[0].tier, Tier::EditSession(s1.id));
    assert_eq!(store.pending_events()[0].object_id, "ev");
    assert_eq!(store.pending_events()[0].doc, Doc::Live(entity("ev")));

    s1.save_session(&mut store).unwrap();
    assert_eq!(store.pending_events().len(), 2);
    assert_eq!(store.pending_events()[1].tier, Tier::ChangeSet(c1.id));

    c1.apply(&mut store).unwrap();
    assert_eq!(store.pending_events().len(), 3);
    assert_eq!(store.pending_events()[2].tier, Tier::Head);

    store.clear_pending_events();
    assert!(store.pending_events().is_empty());
}

#[test]
fn lifecycle_creation_validates_the_change_set() {
    let mut store = Store::new();
    assert_eq!(EditSession::new(&mut store, 3, 1), Err(Error::NotFound));

    let mut c1 = ChangeSet::new(&mut store, Some("demo".to_string()), 1, 100);
    assert_eq!(c1.name, Some("demo".to_string()));
    c1.apply(&mut store).unwrap();
    assert_eq!(
        EditSession::new(&mut store, c1.id, 1),
        Err(Error::InvalidState)
    );
}
