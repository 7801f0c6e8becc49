//! The records the agent stores and the decisions it takes about them.
use vstd::prelude::*;

verus! {

/// A local user; channel identities link to it.
#[derive(Debug, Clone)]
pub struct User {
    pub id: String,
    pub local_name: String,
    pub created_at: String,
}

/// One stored log entry.
#[derive(Debug, Clone)]
pub struct Log {
    pub id: String,
    pub user_id: String,
    pub channel: String,
    pub text: String,
    pub content_type: String,
    pub media_path: Option<String>,
    pub mime_type: Option<String>,
    pub file_size: Option<i64>,
    pub telegram_message_id: Option<i64>,
    pub timestamp: String,
    pub privacy_level: String,
    pub created_at: String,
}

/// What the storage classifier decides about an input.
#[derive(Debug, Clone, Copy, PartialEq, Eq, Structural)]
pub enum StorageAction {
    Store,
    Ignore,
    Ask,
}

/// The storage classifier's decision.
#[derive(Debug, Clone, Copy, PartialEq, Eq, Structural)]
pub struct StorageDecision {
    pub action: StorageAction,
}

} // verus!
