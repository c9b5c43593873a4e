//! Study goals: user-owned goals with a progress rate and a status.

use vstd::prelude::*;

use crate::record::{opt_str_clone, Patch, Record};
use crate::sync::{is_label, SyncMeta, SyncStatus};

verus! {

/// The lifecycle labels a study goal may carry.
pub open spec fn valid_goal_status(v: Seq<char>) -> bool {
    v == "not_started"@ || v == "in_progress"@ || v == "completed"@
}

/// A locally stored study goal.
#[derive(Clone, Debug, PartialEq)]
pub struct LocalStudyGoal {
    pub id: String,
    pub user_id: String,
    pub title: String,
    pub description: Option<String>,
    pub created_at: u64,
    pub updated_at: u64,
    pub deadline: Option<u64>,
    pub progress_rate: i32,
    pub status: String,
    pub completed_at: Option<u64>,
    pub sync_status: SyncStatus,
    pub synced_at: Option<u64>,
    pub local_updated_at: u64,
    pub server_updated_at: Option<u64>,
}

impl Record for LocalStudyGoal {
    open spec fn sid(&self) -> Seq<char> {
        self.id@
    }

    open spec fn sowner(&self) -> Seq<char> {
        self.user_id@
    }

    open spec fn suniq(&self) -> Option<(Seq<char>, Seq<char>)> {
        None
    }

    open spec fn sparent(&self) -> Option<Seq<char>> {
        None
    }

    open spec fn smeta(&self) -> SyncMeta {
        SyncMeta {
            sync_status: self.sync_status,
            synced_at: self.synced_at,
            local_updated_at: self.local_updated_at,
            server_updated_at: self.server_updated_at,
        }
    }

    open spec fn svalid(&self) -> bool {
        0 <= self.progress_rate <= 100 && valid_goal_status(self.status@)
    }

    open spec fn with_meta(&self, m: SyncMeta) -> Self {
        LocalStudyGoal {
            sync_status: m.sync_status,
            synced_at: m.synced_at,
            local_updated_at: m.local_updated_at,
            server_updated_at: m.server_updated_at,
            ..*self
        }
    }

    fn id(&self) -> &String {
        &self.id
    }

    fn owner(&self) -> &String {
        &self.user_id
    }

    fn uniq(&self) -> Option<(&String, &String)> {
        None
    }

    fn parent(&self) -> Option<&String> {
        None
    }

    fn meta(&self) -> SyncMeta {
        SyncMeta {
            sync_status: self.sync_status,
            synced_at: self.synced_at,
            local_updated_at: self.local_updated_at,
            server_updated_at: self.server_updated_at,
        }
    }

    fn validate(&self) -> bool {
        0 <= self.progress_rate && self.progress_rate <= 100 && (is_label(
            &self.status,
            "not_started",
        ) || is_label(&self.status, "in_progress") || is_label(&self.status, "completed"))
    }

    fn set_meta(&mut self, m: SyncMeta) {
        self.sync_status = m.sync_status;
        self.synced_at = m.synced_at;
        self.local_updated_at = m.local_updated_at;
        self.server_updated_at = m.server_updated_at;
    }

    fn dup(&self) -> Self {
        LocalStudyGoal {
            id: self.id.clone(),
            user_id: self.user_id.clone(),
            title: self.title.clone(),
            description: opt_str_clone(&self.description),
            created_at: self.created_at,
            updated_at: self.updated_at,
            deadline: self.deadline,
            progress_rate: self.progress_rate,
            status: self.status.clone(),
            completed_at: self.completed_at,
            sync_status: self.sync_status,
            synced_at: self.synced_at,
            local_updated_at: self.local_updated_at,
            server_updated_at: self.server_updated_at,
        }
    }

    proof fn lemma_with_meta(&self, m: SyncMeta) {
    }
}

} // verus!
