use tierstore::application::{self, LabelValue};
use tierstore::change_set::ChangeSet;
use tierstore::edit_session::EditSession;
use tierstore::record::{EdgeData, Mutation, Payload, PayloadData, Record, RecordKind, VertexRef};
use tierstore::store::{Error, Store};

fn entity(name: &str) -> Record {
    Record {
        kind: RecordKind::Entity,
        payload: Payload {
            name: name.to_string(),
            data: PayloadData::Service,
        },
        edge: None,
    }
}

fn includes_edge(tail: &str, head: &str) -> Record {
    Record {
        kind: RecordKind::Edge,
        payload: Payload {
            name: format!("{tail}->{head}"),
            data: PayloadData::Service,
        },
        edge: Some(EdgeData {
            edge_kind: "Includes".to_string(),
            tail: VertexRef {
                object_id: tail.to_string(),
            },
            head: VertexRef {
                object_id: head.to_string(),
            },
        }),
    }
}

/// A head graph: application `root` includes entities `left` and `right`.
fn seed_graph(store: &mut Store) {
    let mut cs = ChangeSet::new(store, None, 1, 100);
    let mut es = EditSession::new(store, cs.id, 1).unwrap();
    let root = Record {
        kind: RecordKind::Entity,
        payload: Payload {
            name: "root".to_string(),
            data: PayloadData::Application,
        },
        edge: None,
    };
    store
        .write(&"root".to_string(), es.id, Mutation::Replace(root))
        .unwrap();
    for name in ["left", "right"] {
        store
            .write(&name.to_string(), es.id, Mutation::Replace(entity(name)))
            .unwrap();
    }
    store
        .write(
            &"edge-left".to_string(),
            es.id,
            Mutation::Replace(includes_edge("root", "left")),
        )
        .unwrap();
    store
        .write(
            &"edge-right".to_string(),
            es.id,
            Mutation::Replace(includes_edge("root", "right")),
        )
        .unwrap();
    es.save_session(store).unwrap();
    cs.apply(store).unwrap();
}

#[test]
fn successors_follow_edges_of_the_requested_kind() {
    let mut store = Store::new();
    seed_graph(&mut store);

    let hits = store.successors(&"Includes".to_string(), &"root".to_string(), None, None);
    let mut ids: Vec<String> = hits.iter().map(|(id, _)| id.clone()).collect();
    ids.sort();
    assert_eq!(ids, vec!["edge-left".to_string(), "edge-right".to_string()]);

    // Other edge kinds and other tails yield nothing.
    assert!(store
        .successors(&"Configures".to_string(), &"root".to_string(), None, None)
        .is_empty());
    assert!(store
        .successors(&"Includes".to_string(), &"left".to_string(), None, None)
        .is_empty());
}

#[test]
fn deleted_successor_is_omitted_without_error() {
    let mut store = Store::new();
    seed_graph(&mut store);

    // Delete `left` inside a fresh edit session.
    let cs = ChangeSet::new(&mut store, None, 1, 100);
    let es = EditSession::new(&mut store, cs.id, 1).unwrap();
    store
        .write(&"left".to_string(), es.id, Mutation::Delete)
        .unwrap();

    // In the session's context, the edge to the deleted successor is
    // dropped silently.
    let in_session =
        store.successors(&"Includes".to_string(), &"root".to_string(), Some(cs.id), Some(es.id));
    assert_eq!(in_session.len(), 1);
    assert_eq!(in_session[0].0, "edge-right");

    // Without the session's context both successors are still there.
    let at_head = store.successors(&"Includes".to_string(), &"root".to_string(), None, None);
    assert_eq!(at_head.len(), 2);
}

#[test]
fn all_entities_lists_included_entities_by_label() {
    let mut store = Store::new();
    seed_graph(&mut store);

    let ae = application::all_entities(&store, &"root".to_string(), None, None).unwrap();
    let mut labels: Vec<String> = ae
        .entity_list
        .iter()
        .map(|item| item.label.clone())
        .collect();
    labels.sort();
    assert_eq!(labels, vec!["left".to_string(), "right".to_string()]);
    for item in &ae.entity_list {
        assert!(matches!(item.value, LabelValue::ObjectId(_)));
    }

    assert_eq!(
        application::all_entities(&store, &"absent".to_string(), None, None),
        Err(Error::NotFound)
    );
}

#[test]
fn all_entities_omits_successor_deleted_in_the_active_session() {
    let mut store = Store::new();
    seed_graph(&mut store);

    let cs = ChangeSet::new(&mut store, None, 1, 100);
    let es = EditSession::new(&mut store, cs.id, 1).unwrap();
    store
        .write(&"right".to_string(), es.id, Mutation::Delete)
        .unwrap();

    let ae = application::all_entities(&store, &"root".to_string(), Some(cs.id), Some(es.id))
        .expect("traversal tolerates the deleted successor");
    assert_eq!(ae.entity_list.len(), 1);
    assert_eq!(ae.entity_list[0].label, "left");
}

#[test]
fn list_resolves_each_member_through_the_context() {
    let mut store = Store::new();
    seed_graph(&mut store);

    let entities = store.list(RecordKind::Entity, None, None);
    assert_eq!(entities.len(), 3);
    let edges = store.list(RecordKind::Edge, None, None);
    assert_eq!(edges.len(), 2);

    // A draft in a session shows up only in that session's context.
    let cs = ChangeSet::new(&mut store, None, 1, 100);
    let es = EditSession::new(&mut store, cs.id, 1).unwrap();
    store
        .write(&"extra".to_string(), es.id, Mutation::Replace(entity("extra")))
        .unwrap();
    assert_eq!(store.list(RecordKind::Entity, None, None).len(), 3);
    assert_eq!(
        store.list(RecordKind::Entity, Some(cs.id), Some(es.id)).len(),
        4
    );
}
