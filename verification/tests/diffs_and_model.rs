use tierstore::change_set::ChangeSet;
use tierstore::diffview::{payload_text, render_diff, CodeLanguage, ComponentDiff, DiffLine};
use tierstore::edit_session::EditSession;
use tierstore::model::{Capability, CreateReply, BillingAccount, SimpleStorable};
use tierstore::record::{Mutation, Payload, PayloadData, Record, RecordKind};
use tierstore::store::{Error, Store};

fn app_record(name: &str) -> Record {
    Record {
        kind: RecordKind::Entity,
        payload: Payload {
            name: name.to_string(),
            data: PayloadData::Application,
        },
        edge: None,
    }
}

#[test]
fn payload_text_renders_name_and_kind() {
    let p = Payload {
        name: "web".to_string(),
        data: PayloadData::Application,
    };
    assert_eq!(payload_text(&p), "name: web\nkind: application");

    let e = Payload {
        name: "custom".to_string(),
        data: PayloadData::Extension {
            kind: "loadbalancer".to_string(),
            document: "port: 443".to_string(),
        },
    };
    assert_eq!(
        payload_text(&e),
        "name: custom\nkind: loadbalancer\nport: 443"
    );
}

#[test]
fn render_diff_prefixes_and_joins_lines() {
    let lines = vec![
        DiffLine::Removed("old".to_string()),
        DiffLine::Unchanged("same".to_string()),
        DiffLine::Added("new".to_string()),
    ];
    assert_eq!(render_diff(&lines), "-old\n same\n+new");
    assert_eq!(render_diff(&Vec::new()), "");
}

#[test]
fn component_diff_shows_the_drafted_change() {
    let mut store = Store::new();
    let mut cs = ChangeSet::new(&mut store, None, 1, 100);
    let mut es = EditSession::new(&mut store, cs.id, 1).unwrap();
    store
        .write(&"web".to_string(), es.id, Mutation::Replace(app_record("one")))
        .unwrap();
    es.save_session(&mut store).unwrap();
    cs.apply(&mut store).unwrap();

    let cs2 = ChangeSet::new(&mut store, None, 1, 100);
    let es2 = EditSession::new(&mut store, cs2.id, 1).unwrap();
    store
        .write(&"web".to_string(), es2.id, Mutation::Rename("two".to_string()))
        .unwrap();

    let d = ComponentDiff::new(&store, &"web".to_string(), Some(cs2.id), Some(es2.id)).unwrap();
    assert_eq!(d.current.language, CodeLanguage::Json);
    assert_eq!(
        d.current.code.as_deref(),
        Some("name: two\nkind: application")
    );
    assert_eq!(d.diffs.len(), 1);
    assert_eq!(d.diffs[0].language, CodeLanguage::Diff);
    // The real line diff: the name line changed, the kind line did not.
    // Were the diff call to hand one of its inputs back unchanged, no `-`
    // or `+` line could appear here.
    assert_eq!(
        d.diffs[0].code.as_deref(),
        Some("-name: one\n+name: two\n kind: application")
    );
}

#[test]
fn component_diff_of_a_new_object_has_no_diffs() {
    let mut store = Store::new();
    let cs = ChangeSet::new(&mut store, None, 1, 100);
    let es = EditSession::new(&mut store, cs.id, 1).unwrap();
    store
        .write(&"fresh".to_string(), es.id, Mutation::Replace(app_record("fresh")))
        .unwrap();

    let d = ComponentDiff::new(&store, &"fresh".to_string(), Some(cs.id), Some(es.id)).unwrap();
    assert!(d.diffs.is_empty());

    // Diffing Head against itself is refused, and an unknown object is
    // not found.
    assert_eq!(
        ComponentDiff::new(&store, &"fresh".to_string(), None, None),
        Err(Error::InvalidState)
    );
    assert_eq!(
        ComponentDiff::new(&store, &"nope".to_string(), Some(cs.id), Some(es.id)),
        Err(Error::NotFound)
    );
}

#[test]
fn capability_new_keeps_its_parts() {
    let cap = Capability::new("applicationContextDal".to_string(), "applyChangeSet".to_string());
    assert_eq!(cap.subject, "applicationContextDal");
    assert_eq!(cap.action, "applyChangeSet");
    assert_eq!(cap.clone(), cap);
}

#[test]
fn error_messages_name_the_failure() {
    assert!(Error::NotFound.message().contains("not found"));
    assert!(Error::InvalidState.message().contains("status"));
    assert!(Error::Conflict.message().contains("race"));
    assert!(Error::Serialization.message().contains("kind"));
    assert!(Error::Persistence.message().contains("transaction"));
}

#[test]
fn signup_reply_carries_the_billing_account() {
    let reply = CreateReply {
        billing_account: BillingAccount {
            id: "ba-1".to_string(),
            name: "acme".to_string(),
            description: "demo".to_string(),
            si_storable: SimpleStorable {
                kind_name: "billingAccount".to_string(),
                object_id: "ba-1".to_string(),
                billing_account_id: "ba-1".to_string(),
            },
        },
    };
    assert_eq!(reply.billing_account.name, "acme");
}
