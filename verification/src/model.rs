//! Administrative record types that travel alongside the versioned graph:
//! workspaces, groups and their capabilities, billing accounts, and node
//! positions. The store that persists them is an external collaborator;
//! here they are plain, well-typed values.

use vstd::prelude::*;

verus! {

/// Audit metadata for simple (unversioned) records.
#[derive(Debug, PartialEq, Eq)]
pub struct SimpleStorable {
    pub kind_name: String,
    pub object_id: String,
    pub billing_account_id: String,
}

/// Audit metadata for tenant-scoped records.
#[derive(Debug, PartialEq, Eq)]
pub struct SiStorable {
    pub kind_name: String,
    pub object_id: String,
    pub billing_account_id: String,
    pub organization_id: String,
    pub workspace_id: String,
}

/// One permission a group grants: an action on a subject.
#[derive(Debug, PartialEq, Eq)]
pub struct Capability {
    pub subject: String,
    pub action: String,
}

impl Clone for Capability {
    fn clone(&self) -> (r: Self)
        ensures
            r == *self,
    {
        Capability { subject: self.subject.clone(), action: self.action.clone() }
    }
}

impl Capability {
    /// A capability granting `action` on `subject`.
    pub fn new(subject: String, action: String) -> (r: Capability)
        ensures
            r.subject == subject,
            r.action == action,
    {
        Capability { subject, action }
    }
}

/// A group of users and API clients sharing a set of capabilities.
#[derive(Debug, PartialEq, Eq)]
pub struct Group {
    pub id: String,
    pub name: String,
    pub user_ids: Vec<String>,
    pub api_client_ids: Vec<String>,
    pub capabilities: Vec<Capability>,
    pub si_storable: SimpleStorable,
}

/// A workspace: the tenancy unit that change sets belong to.
#[derive(Debug, PartialEq, Eq)]
pub struct Workspace {
    pub id: String,
    pub name: String,
    pub si_storable: SimpleStorable,
}

/// Where a node sits on a diagram, for one context.
#[derive(Debug, PartialEq, Eq)]
pub struct NodePosition {
    pub id: String,
    pub node_id: String,
    pub context_id: String,
    pub x: String,
    pub y: String,
    pub si_storable: SiStorable,
}

/// A billing account, the root of the tenancy tree.
#[derive(Debug, PartialEq, Eq)]
pub struct BillingAccount {
    pub id: String,
    pub name: String,
    pub description: String,
    pub si_storable: SimpleStorable,
}

/// What a signup asks for.
#[derive(Debug, PartialEq, Eq)]
pub struct CreateRequest {
    pub billing_account_name: String,
    pub billing_account_description: String,
    pub user_name: String,
    pub user_email: String,
    pub user_password: String,
}

/// What a signup returns.
#[derive(Debug, PartialEq, Eq)]
pub struct CreateReply {
    pub billing_account: BillingAccount,
}

} // verus!
