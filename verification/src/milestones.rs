//! Milestones: intermediate steps of a study goal.

use vstd::prelude::*;

use crate::record::{opt_str_clone, Record};
use crate::sync::{SyncMeta, SyncStatus};

verus! {

/// A locally stored milestone.  Milestones are owned transitively through
/// their goal, so the goal id serves as the listing key.
#[derive(Clone, Debug, PartialEq)]
pub struct LocalMilestone {
    pub id: String,
    pub goal_id: String,
    pub title: String,
    pub description: Option<String>,
    pub due_date: Option<u64>,
    pub is_completed: bool,
    pub created_at: u64,
    pub updated_at: u64,
    pub sync_status: SyncStatus,
    pub synced_at: Option<u64>,
    pub local_updated_at: u64,
    pub server_updated_at: Option<u64>,
}

impl Record for LocalMilestone {
    open spec fn sid(&self) -> Seq<char> {
        self.id@
    }

    open spec fn sowner(&self) -> Seq<char> {
        self.goal_id@
    }

    open spec fn suniq(&self) -> Option<(Seq<char>, Seq<char>)> {
        None
    }

    open spec fn sparent(&self) -> Option<Seq<char>> {
        Some(self.goal_id@)
    }

    open spec fn smeta(&self) -> SyncMeta {
        SyncMeta {
            sync_status: self.sync_status,
            synced_at: self.synced_at,
            local_updated_at: self.local_updated_at,
            server_updated_at: self.server_updated_at,
        }
    }

    open spec fn svalid(&self) -> bool {
        true
    }

    open spec fn with_meta(&self, m: SyncMeta) -> Self {
        LocalMilestone {
            sync_status: m.sync_status,
            synced_at: m.synced_at,
            local_updated_at: m.local_updated_at,
            server_updated_at: m.server_updated_at,
            ..*self
        }
    }

    fn id(&self) -> &String {
        &self.id
    }

    fn owner(&self) -> &String {
        &self.goal_id
    }

    fn uniq(&self) -> Option<(&String, &String)> {
        None
    }

    fn parent(&self) -> Option<&String> {
        Some(&self.goal_id)
    }

    fn meta(&self) -> SyncMeta {
        SyncMeta {
            sync_status: self.sync_status,
            synced_at: self.synced_at,
            local_updated_at: self.local_updated_at,
            server_updated_at: self.server_updated_at,
        }
    }

    fn validate(&self) -> bool {
        true
    }

    fn set_meta(&mut self, m: SyncMeta) {
        self.sync_status = m.sync_status;
        self.synced_at = m.synced_at;
        self.local_updated_at = m.local_updated_at;
        self.server_updated_at = m.server_updated_at;
    }

    fn dup(&self) -> Self {
        LocalMilestone {
            id: self.id.clone(),
            goal_id: self.goal_id.clone(),
            title: self.title.clone(),
            description: opt_str_clone(&self.description),
            due_date: self.due_date,
            is_completed: self.is_completed,
            created_at: self.created_at,
            updated_at: self.updated_at,
            sync_status: self.sync_status,
            synced_at: self.synced_at,
            local_updated_at: self.local_updated_at,
            server_updated_at: self.server_updated_at,
        }
    }

    proof fn lemma_with_meta(&self, m: SyncMeta) {
    }
}

} // verus!
