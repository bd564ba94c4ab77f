//! A three-tier versioned entity store.
//!
//! Records live at one of three tiers: Head (the canonical baseline), a
//! ChangeSet (a named, reviewable branch of proposed edits), or an
//! EditSession (a single-writer scratch layer under one change set).
//! Writes land as copy-on-write drafts in an edit session; saving a session
//! promotes its drafts into the change-set tier; applying a change set
//! promotes that tier into Head, atomically. Reads resolve an object by
//! falling back EditSession -> ChangeSet -> Head.

pub mod application;
pub mod change_set;
pub mod diffview;
pub mod edit_session;
pub mod handlers;
pub mod laws;
pub mod model;
pub mod record;
pub mod store;
pub mod table;
pub mod traversal;
