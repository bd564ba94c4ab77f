use tierstore::application::{self, LabelValue};
use tierstore::change_set::ChangeSet;
use tierstore::edit_session::EditSession;
use tierstore::handlers::{
    self, ApplyChangeSetRequest, CancelEditSessionRequest, CreateChangeSetAndEditSessionRequest,
    CreateEditSessionAndGetChangeSetRequest, CreateEditSessionRequest,
    GetApplicationContextRequest, GetChangeSetAndEditSessionRequest, GetChangeSetRequest,
    SaveEditSessionRequest,
};
use tierstore::change_set::ChangeSetStatus;
use tierstore::edit_session::EditSessionStatus;
use tierstore::record::{Mutation, Payload, PayloadData, Record, RecordKind};
use tierstore::store::{Error, Store};

fn system(name: &str) -> Record {
    Record {
        kind: RecordKind::Entity,
        payload: Payload {
            name: name.to_string(),
            data: PayloadData::System,
        },
        edge: None,
    }
}

/// Put a system named "production" at Head, as a signup would have.
fn seed_production(store: &mut Store, workspace_id: u64) {
    let mut cs = ChangeSet::new(store, None, workspace_id, 50);
    let mut es = EditSession::new(store, cs.id, workspace_id).unwrap();
    store
        .write(
            &"sys-production".to_string(),
            es.id,
            Mutation::Replace(system("production")),
        )
        .unwrap();
    es.save_session(store).unwrap();
    cs.apply(store).unwrap();
}

#[test]
fn create_runs_a_whole_round_trip() {
    let mut store = Store::new();
    // Without a production system the creation fails and touches nothing.
    assert_eq!(
        application::create(&mut store, "app-1".to_string(), 9, 100),
        Err(Error::NotFound)
    );
    assert!(store.table.rows.is_empty());

    seed_production(&mut store, 9);
    let entry = application::create(&mut store, "app-1".to_string(), 9, 100).unwrap();

    assert_eq!(entry.application.payload.name, "app-1");
    assert_eq!(entry.application.payload.data, PayloadData::Application);
    assert!(entry.systems.is_empty());
    assert!(entry.services_with_resources.is_empty());
    // The seeding and the round trip each opened one change set and
    // applied it.
    assert_eq!(entry.change_set_counts.open_count, 0);
    assert_eq!(entry.change_set_counts.closed_count, 2);

    let at_head = store.resolve(&"app-1".to_string(), None, None).unwrap();
    assert_eq!(at_head, entry.application);

    // The application was assigned to the production system.
    let edge = store
        .resolve(&"system-assignment:app-1".to_string(), None, None)
        .unwrap();
    let data = edge.edge.expect("assignment is an edge");
    assert_eq!(data.edge_kind, "Includes");
    assert_eq!(data.tail.object_id, "sys-production");
    assert_eq!(data.head.object_id, "app-1");
    let hits = store.successors(&"Includes".to_string(), &"sys-production".to_string(), None, None);
    assert_eq!(hits.len(), 1);
}

#[test]
fn create_under_an_existing_name_overwrites_the_head_row() {
    let mut store = Store::new();
    seed_production(&mut store, 9);
    application::create(&mut store, "app-1".to_string(), 9, 100).unwrap();
    // The name doubles as the object id, so a second create under the same
    // name replaces the first's Head row rather than adding a second one.
    application::create(&mut store, "app-1".to_string(), 9, 200).unwrap();
    assert_eq!(application::list(&store, 9).len(), 1);
}

#[test]
fn list_returns_applications_only() {
    let mut store = Store::new();
    seed_production(&mut store, 9);
    application::create(&mut store, "first".to_string(), 9, 100).unwrap();
    application::create(&mut store, "second".to_string(), 9, 100).unwrap();

    // A system entity at Head must not appear in the application list.
    let mut cs = ChangeSet::new(&mut store, None, 9, 100);
    let mut es = EditSession::new(&mut store, cs.id, 9).unwrap();
    store
        .write(&"prod".to_string(), es.id, Mutation::Replace(system("prod")))
        .unwrap();
    es.save_session(&mut store).unwrap();
    cs.apply(&mut store).unwrap();

    let entries = application::list(&store, 9);
    let mut names: Vec<String> = entries
        .iter()
        .map(|e| e.application.payload.name.clone())
        .collect();
    names.sort();
    assert_eq!(names, vec!["first".to_string(), "second".to_string()]);
    assert_eq!(entries[0].change_set_counts.closed_count, 4);
}

#[test]
fn context_collects_name_systems_and_change_set_labels() {
    let mut store = Store::new();
    seed_production(&mut store, 9);
    application::create(&mut store, "portal".to_string(), 9, 100).unwrap();
    let mut cs = ChangeSet::new(&mut store, Some("add prod".to_string()), 9, 100);
    let mut es = EditSession::new(&mut store, cs.id, 9).unwrap();
    store
        .write(&"prod".to_string(), es.id, Mutation::Replace(system("prod")))
        .unwrap();
    es.save_session(&mut store).unwrap();
    cs.apply(&mut store).unwrap();
    let open_cs = ChangeSet::new(&mut store, Some("in flight".to_string()), 9, 200);

    let ctx = application::context(&store, &"portal".to_string(), 9).unwrap();
    assert_eq!(ctx.application_name, "portal");
    let mut system_labels: Vec<String> =
        ctx.systems_list.iter().map(|item| item.label.clone()).collect();
    system_labels.sort();
    assert_eq!(system_labels, vec!["prod".to_string(), "production".to_string()]);
    assert_eq!(ctx.open_change_sets_list.len(), 1);
    assert_eq!(ctx.open_change_sets_list[0].label, "in flight");
    assert_eq!(ctx.open_change_sets_list[0].value, LabelValue::Id(open_cs.id));
    assert_eq!(ctx.revisions_list.len(), 3);

    assert_eq!(
        application::context(&store, &"nope".to_string(), 9),
        Err(Error::NotFound)
    );
}

#[test]
fn change_set_counts_count_by_workspace_and_status() {
    let mut store = Store::new();
    let _open_a = ChangeSet::new(&mut store, None, 1, 100);
    let mut applied = ChangeSet::new(&mut store, None, 1, 100);
    applied.apply(&mut store).unwrap();
    let mut abandoned = ChangeSet::new(&mut store, None, 1, 100);
    abandoned.abandon(&mut store).unwrap();
    let _other_workspace = ChangeSet::new(&mut store, None, 2, 100);

    let counts = store.change_set_counts(1);
    assert_eq!(counts.open_count, 1);
    assert_eq!(counts.closed_count, 2);
    let other = store.change_set_counts(2);
    assert_eq!(other.open_count, 1);
    assert_eq!(other.closed_count, 0);
}

#[test]
fn handler_round_trip_mirrors_the_lifecycle() {
    let mut store = Store::new();
    let created = handlers::create_change_set_and_edit_session(
        &mut store,
        CreateChangeSetAndEditSessionRequest {
            change_set_name: "feature".to_string(),
            workspace_id: 4,
        },
        1000,
    );
    assert_eq!(created.change_set.name, Some("feature".to_string()));
    assert_eq!(created.change_set.status, ChangeSetStatus::Open);
    assert_eq!(created.change_set.created_at, 1000);
    assert_eq!(created.edit_session.change_set_id, created.change_set.id);

    let fetched = handlers::get_change_set_and_edit_session(
        &store,
        &GetChangeSetAndEditSessionRequest {
            change_set_id: created.change_set.id,
            edit_session_id: created.edit_session.id,
        },
    )
    .unwrap();
    assert_eq!(fetched.change_set, created.change_set);
    assert_eq!(fetched.edit_session, created.edit_session);

    store
        .write(
            &"thing".to_string(),
            created.edit_session.id,
            Mutation::Replace(system("thing")),
        )
        .unwrap();

    let saved = handlers::save_edit_session(
        &mut store,
        &SaveEditSessionRequest {
            edit_session_id: created.edit_session.id,
            workspace_id: 4,
        },
    )
    .unwrap();
    assert_eq!(saved.edit_session.status, EditSessionStatus::Saved);

    let applied = handlers::apply_change_set(
        &mut store,
        &ApplyChangeSetRequest {
            change_set_id: created.change_set.id,
            workspace_id: 4,
        },
    )
    .unwrap();
    assert_eq!(applied.change_set.status, ChangeSetStatus::Applied);
    assert!(store.resolve(&"thing".to_string(), None, None).is_ok());

    // Repeating the apply is an invalid lifecycle transition.
    assert_eq!(
        handlers::apply_change_set(
            &mut store,
            &ApplyChangeSetRequest {
                change_set_id: created.change_set.id,
                workspace_id: 4,
            },
        ),
        Err(Error::InvalidState)
    );
}

#[test]
fn handler_session_management_paths() {
    let mut store = Store::new();
    let created = handlers::create_change_set_and_edit_session(
        &mut store,
        CreateChangeSetAndEditSessionRequest {
            change_set_name: "wip".to_string(),
            workspace_id: 4,
        },
        1000,
    );

    let second = handlers::create_edit_session(
        &mut store,
        &CreateEditSessionRequest {
            change_set_id: created.change_set.id,
            workspace_id: 4,
        },
    )
    .unwrap();
    assert_eq!(second.edit_session.status, EditSessionStatus::Open);

    let third = handlers::create_edit_session_and_get_change_set(
        &mut store,
        &CreateEditSessionAndGetChangeSetRequest {
            change_set_id: created.change_set.id,
        },
    )
    .unwrap();
    assert_eq!(third.change_set, created.change_set);

    let canceled = handlers::cancel_edit_session(
        &mut store,
        &CancelEditSessionRequest {
            edit_session_id: second.edit_session.id,
            workspace_id: 4,
        },
    )
    .unwrap();
    assert_eq!(canceled.edit_session.status, EditSessionStatus::Canceled);
    assert_eq!(
        handlers::cancel_edit_session(
            &mut store,
            &CancelEditSessionRequest {
                edit_session_id: second.edit_session.id,
                workspace_id: 4,
            },
        ),
        Err(Error::InvalidState)
    );

    assert_eq!(
        handlers::get_change_set(&store, &GetChangeSetRequest { change_set_id: 99 }),
        Err(Error::NotFound)
    );
    assert_eq!(
        handlers::create_edit_session(
            &mut store,
            &CreateEditSessionRequest {
                change_set_id: 99,
                workspace_id: 4,
            },
        ),
        Err(Error::NotFound)
    );
}

#[test]
fn handler_application_context() {
    let mut store = Store::new();
    seed_production(&mut store, 7);
    application::create(&mut store, "shop".to_string(), 7, 100).unwrap();
    let reply = handlers::get_application_context(
        &store,
        &GetApplicationContextRequest {
            application_id: "shop".to_string(),
            workspace_id: 7,
        },
    )
    .unwrap();
    assert_eq!(reply.application_name, "shop");
    assert_eq!(reply.revisions_list.len(), 2);
}
