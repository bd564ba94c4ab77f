//! The request/reply operations the service layer exposes: each takes a
//! plain request value, runs one lifecycle or read operation against the
//! store, and returns a plain reply. Transport, authentication and tenancy
//! checks live outside the library.

use vstd::prelude::*;
use crate::application::{self, ApplicationContext};
use crate::change_set::{ChangeSet, ChangeSetStatus};
use crate::edit_session::{EditSession, EditSessionStatus};
use crate::store::{Error, Store};

verus! {

/// Asks for an application's context panel.
#[derive(Debug, PartialEq, Eq)]
pub struct GetApplicationContextRequest {
    pub application_id: String,
    pub workspace_id: u64,
}

pub type GetApplicationContextReply = ApplicationContext;

/// Fetch the context panel for an application.
pub fn get_application_context(store: &Store, request: &GetApplicationContextRequest) -> (r:
    Result<GetApplicationContextReply, Error>)
    requires
        store.wf(),
    ensures
        match r {
            Result::Ok(ctx) => (store.spec_resolve(
                request.application_id@,
                Option::None,
                Option::None,
            ) matches Option::Some(app) && ctx.application_name == app.payload.name)
                && application::system_labels_ok(*store, ctx.systems_list@)
                && application::cs_labels_ok(
                *store,
                request.workspace_id,
                true,
                ctx.open_change_sets_list@,
            ) && application::cs_labels_ok(
                *store,
                request.workspace_id,
                false,
                ctx.revisions_list@,
            ),
            Result::Err(e) => e == Error::NotFound && store.spec_resolve(
                request.application_id@,
                Option::None,
                Option::None,
            ) is None,
        },
{
    application::context(store, &request.application_id, request.workspace_id)
}

/// Asks for a fresh change set with a fresh edit session under it.
#[derive(Debug, PartialEq, Eq)]
pub struct CreateChangeSetAndEditSessionRequest {
    pub change_set_name: String,
    pub workspace_id: u64,
}

/// The created pair.
#[derive(Debug, PartialEq, Eq)]
pub struct CreateChangeSetAndEditSessionReply {
    pub change_set: ChangeSet,
    pub edit_session: EditSession,
}

/// Open a change set and an edit session under it, in one transaction.
/// The creation time is the caller's: the core holds no clock.
pub fn create_change_set_and_edit_session(
    store: &mut Store,
    request: CreateChangeSetAndEditSessionRequest,
    created_at: u64,
) -> (reply: CreateChangeSetAndEditSessionReply)
    requires
        old(store).wf(),
    ensures
        final(store).wf(),
        reply.change_set == (ChangeSet {
            id: old(store).change_sets@.len() as u64,
            name: Option::Some(request.change_set_name),
            workspace_id: request.workspace_id,
            status: ChangeSetStatus::Open,
            created_at,
        }),
        reply.edit_session == (EditSession {
            id: old(store).edit_sessions@.len() as u64,
            change_set_id: reply.change_set.id,
            workspace_id: request.workspace_id,
            status: EditSessionStatus::Open,
        }),
        final(store).change_sets@ == old(store).change_sets@.push(reply.change_set),
        final(store).edit_sessions@ == old(store).edit_sessions@.push(reply.edit_session),
        final(store).table == old(store).table,
        final(store).pending == old(store).pending,
{
    let ghost s0 = *store;
    let change_set = ChangeSet::new(
        store,
        Option::Some(request.change_set_name),
        request.workspace_id,
        created_at,
    );
    proof {
        vstd::std_specs::vec::axiom_spec_len(&s0.change_sets);
        vstd::std_specs::vec::axiom_spec_len(&s0.edit_sessions);
        assert(store.change_sets@[change_set.id as int] == change_set);
    }
    let edit_session = match EditSession::new(store, change_set.id, request.workspace_id) {
        Result::Ok(es) => es,
        Result::Err(_) => vstd::pervasive::unreached(),
    };
    CreateChangeSetAndEditSessionReply { change_set, edit_session }
}

/// Asks for an existing change set and edit session.
#[derive(Debug, PartialEq, Eq)]
pub struct GetChangeSetAndEditSessionRequest {
    pub change_set_id: u64,
    pub edit_session_id: u64,
}

/// The fetched pair.
#[derive(Debug, PartialEq, Eq)]
pub struct GetChangeSetAndEditSessionReply {
    pub change_set: ChangeSet,
    pub edit_session: EditSession,
}

/// Fetch a change set and an edit session by id.
pub fn get_change_set_and_edit_session(
    store: &Store,
    request: &GetChangeSetAndEditSessionRequest,
) -> (r: Result<GetChangeSetAndEditSessionReply, Error>)
    ensures
        match r {
            Result::Ok(reply) => request.change_set_id < store.change_sets@.len()
                && reply.change_set == store.change_sets@[request.change_set_id as int]
                && request.edit_session_id < store.edit_sessions@.len() && reply.edit_session
                == store.edit_sessions@[request.edit_session_id as int],
            Result::Err(e) => e == Error::NotFound && (request.change_set_id
                >= store.change_sets@.len() || request.edit_session_id
                >= store.edit_sessions@.len()),
        },
{
    let change_set = match store.get_change_set(request.change_set_id) {
        Result::Ok(cs) => cs,
        Result::Err(e) => {
            return Result::Err(e);
        },
    };
    let edit_session = match store.get_edit_session(request.edit_session_id) {
        Result::Ok(es) => es,
        Result::Err(e) => {
            return Result::Err(e);
        },
    };
    Result::Ok(GetChangeSetAndEditSessionReply { change_set, edit_session })
}

/// Asks for an existing change set.
#[derive(Debug, PartialEq, Eq)]
pub struct GetChangeSetRequest {
    pub change_set_id: u64,
}

/// The fetched change set.
#[derive(Debug, PartialEq, Eq)]
pub struct GetChangeSetReply {
    pub change_set: ChangeSet,
}

/// Fetch a change set by id.
pub fn get_change_set(store: &Store, request: &GetChangeSetRequest) -> (r: Result<
    GetChangeSetReply,
    Error,
>)
    ensures
        match r {
            Result::Ok(reply) => request.change_set_id < store.change_sets@.len()
                && reply.change_set == store.change_sets@[request.change_set_id as int],
            Result::Err(e) => e == Error::NotFound && request.change_set_id
                >= store.change_sets@.len(),
        },
{
    match store.get_change_set(request.change_set_id) {
        Result::Ok(change_set) => Result::Ok(GetChangeSetReply { change_set }),
        Result::Err(e) => Result::Err(e),
    }
}

/// Asks for a fresh edit session under an existing change set.
#[derive(Debug, PartialEq, Eq)]
pub struct CreateEditSessionAndGetChangeSetRequest {
    pub change_set_id: u64,
}

/// The change set and the created session.
#[derive(Debug, PartialEq, Eq)]
pub struct CreateEditSessionAndGetChangeSetReply {
    pub change_set: ChangeSet,
    pub edit_session: EditSession,
}

/// Open an edit session under an existing change set and return both.
pub fn create_edit_session_and_get_change_set(
    store: &mut Store,
    request: &CreateEditSessionAndGetChangeSetRequest,
) -> (r: Result<CreateEditSessionAndGetChangeSetReply, Error>)
    requires
        old(store).wf(),
    ensures
        final(store).wf(),
        match r {
            Result::Ok(reply) => request.change_set_id < old(store).change_sets@.len()
                && reply.change_set == old(store).change_sets@[request.change_set_id as int]
                && EditSession::new_post(
                *old(store),
                *final(store),
                request.change_set_id,
                reply.change_set.workspace_id,
                Result::Ok(reply.edit_session),
            ),
            Result::Err(e) => *final(store) == *old(store) && ((e == Error::NotFound
                && request.change_set_id >= old(store).change_sets@.len()) || (e
                == Error::InvalidState && request.change_set_id < old(store).change_sets@.len()
                && !(old(store).change_sets@[request.change_set_id as int].status is Open))),
        },
{
    let change_set = match store.get_change_set(request.change_set_id) {
        Result::Ok(cs) => cs,
        Result::Err(e) => {
            return Result::Err(e);
        },
    };
    match EditSession::new(store, request.change_set_id, change_set.workspace_id) {
        Result::Ok(edit_session) => Result::Ok(
            CreateEditSessionAndGetChangeSetReply { change_set, edit_session },
        ),
        Result::Err(e) => Result::Err(e),
    }
}

/// Asks for a fresh edit session.
#[derive(Debug, PartialEq, Eq)]
pub struct CreateEditSessionRequest {
    pub change_set_id: u64,
    pub workspace_id: u64,
}

/// The created session.
#[derive(Debug, PartialEq, Eq)]
pub struct CreateEditSessionReply {
    pub edit_session: EditSession,
}

/// Open an edit session under an existing, Open change set.
pub fn create_edit_session(store: &mut Store, request: &CreateEditSessionRequest) -> (r: Result<
    CreateEditSessionReply,
    Error,
>)
    requires
        old(store).wf(),
    ensures
        final(store).wf(),
        match r {
            Result::Ok(reply) => EditSession::new_post(
                *old(store),
                *final(store),
                request.change_set_id,
                request.workspace_id,
                Result::Ok(reply.edit_session),
            ),
            Result::Err(e) => *final(store) == *old(store) && EditSession::new_post(
                *old(store),
                *final(store),
                request.change_set_id,
                request.workspace_id,
                Result::Err(e),
            ),
        },
{
    match EditSession::new(store, request.change_set_id, request.workspace_id) {
        Result::Ok(edit_session) => Result::Ok(CreateEditSessionReply { edit_session }),
        Result::Err(e) => Result::Err(e),
    }
}

/// Asks to cancel an edit session.
#[derive(Debug, PartialEq, Eq)]
pub struct CancelEditSessionRequest {
    pub edit_session_id: u64,
    pub workspace_id: u64,
}

/// The session after cancellation.
#[derive(Debug, PartialEq, Eq)]
pub struct CancelEditSessionReply {
    pub edit_session: EditSession,
}

/// Cancel an Open edit session, discarding its drafts.
pub fn cancel_edit_session(store: &mut Store, request: &CancelEditSessionRequest) -> (r: Result<
    CancelEditSessionReply,
    Error,
>)
    requires
        old(store).wf(),
    ensures
        final(store).wf(),
        match r {
            Result::Ok(reply) => request.edit_session_id < old(store).edit_sessions@.len()
                && EditSession::cancel_post(
                *old(store),
                *final(store),
                old(store).edit_sessions@[request.edit_session_id as int],
                reply.edit_session,
                Result::Ok(()),
            ),
            Result::Err(e) => *final(store) == *old(store) && ((e == Error::NotFound
                && request.edit_session_id >= old(store).edit_sessions@.len()) || (e
                == Error::InvalidState && request.edit_session_id < old(
                store,
            ).edit_sessions@.len() && !(old(
                store,
            ).edit_sessions@[request.edit_session_id as int].status is Open))),
        },
{
    let mut edit_session = match store.get_edit_session(request.edit_session_id) {
        Result::Ok(es) => es,
        Result::Err(e) => {
            return Result::Err(e);
        },
    };
    match edit_session.cancel(store) {
        Result::Ok(()) => Result::Ok(CancelEditSessionReply { edit_session }),
        Result::Err(e) => Result::Err(e),
    }
}

/// Asks to save an edit session.
#[derive(Debug, PartialEq, Eq)]
pub struct SaveEditSessionRequest {
    pub edit_session_id: u64,
    pub workspace_id: u64,
}

/// The session after saving.
#[derive(Debug, PartialEq, Eq)]
pub struct SaveEditSessionReply {
    pub edit_session: EditSession,
}

/// Save an Open edit session, promoting its drafts into its change set.
pub fn save_edit_session(store: &mut Store, request: &SaveEditSessionRequest) -> (r: Result<
    SaveEditSessionReply,
    Error,
>)
    requires
        old(store).wf(),
    ensures
        final(store).wf(),
        match r {
            Result::Ok(reply) => request.edit_session_id < old(store).edit_sessions@.len()
                && EditSession::save_session_post(
                *old(store),
                *final(store),
                old(store).edit_sessions@[request.edit_session_id as int],
                reply.edit_session,
                Result::Ok(()),
            ),
            Result::Err(e) => *final(store) == *old(store) && ((e == Error::NotFound
                && request.edit_session_id >= old(store).edit_sessions@.len()) || (e
                == Error::InvalidState && request.edit_session_id < old(
                store,
            ).edit_sessions@.len() && !(old(
                store,
            ).edit_sessions@[request.edit_session_id as int].status is Open))),
        },
{
    let mut edit_session = match store.get_edit_session(request.edit_session_id) {
        Result::Ok(es) => es,
        Result::Err(e) => {
            return Result::Err(e);
        },
    };
    match edit_session.save_session(store) {
        Result::Ok(()) => Result::Ok(SaveEditSessionReply { edit_session }),
        Result::Err(e) => Result::Err(e),
    }
}

/// Asks to apply a change set.
#[derive(Debug, PartialEq, Eq)]
pub struct ApplyChangeSetRequest {
    pub change_set_id: u64,
    pub workspace_id: u64,
}

/// The change set after application.
#[derive(Debug, PartialEq, Eq)]
pub struct ApplyChangeSetReply {
    pub change_set: ChangeSet,
}

/// Apply an Open change set, promoting its tier into Head.
pub fn apply_change_set(store: &mut Store, request: &ApplyChangeSetRequest) -> (r: Result<
    ApplyChangeSetReply,
    Error,
>)
    requires
        old(store).wf(),
    ensures
        final(store).wf(),
        match r {
            Result::Ok(reply) => request.change_set_id < old(store).change_sets@.len()
                && ChangeSet::apply_post(
                *old(store),
                *final(store),
                old(store).change_sets@[request.change_set_id as int],
                reply.change_set,
                Result::Ok(()),
            ),
            Result::Err(e) => *final(store) == *old(store) && ((e == Error::NotFound
                && request.change_set_id >= old(store).change_sets@.len()) || (e
                == Error::InvalidState && request.change_set_id < old(store).change_sets@.len()
                && !(old(store).change_sets@[request.change_set_id as int].status is Open))),
        },
{
    let mut change_set = match store.get_change_set(request.change_set_id) {
        Result::Ok(cs) => cs,
        Result::Err(e) => {
            return Result::Err(e);
        },
    };
    match change_set.apply(store) {
        Result::Ok(()) => Result::Ok(ApplyChangeSetReply { change_set }),
        Result::Err(e) => Result::Err(e),
    }
}

} // verus!
