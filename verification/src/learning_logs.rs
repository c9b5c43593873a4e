//! Learning logs: one answer to one card, kept for the scheduler and for
//! statistics.

use vstd::prelude::*;

use crate::record::{opt_str_clone, Record};
use crate::sync::{is_label, SyncMeta, SyncStatus};

verus! {

/// The practice modes a learning log may carry.
pub open spec fn valid_practice_mode(v: Seq<char>) -> bool {
    v == "flashcard"@ || v == "quiz"@ || v == "typing"@ || v == "listening"@ || v == "reading"@
}

/// A locally stored learning log.
#[derive(Clone, Debug, PartialEq)]
pub struct LocalLearningLog {
    pub id: String,
    pub user_id: String,
    pub card_id: String,
    pub question_id: Option<String>,
    pub answered_at: u64,
    pub is_correct: bool,
    pub user_answer: Option<String>,
    pub practice_mode: String,
    pub review_interval: Option<i32>,
    pub next_review_at: Option<u64>,
    pub quality: i32,
    pub response_time: i32,
    pub effort_time: i32,
    pub attempt_count: i32,
    pub sync_status: SyncStatus,
    pub synced_at: Option<u64>,
    pub local_updated_at: u64,
    pub server_updated_at: Option<u64>,
}

impl Record for LocalLearningLog {
    open spec fn sid(&self) -> Seq<char> {
        self.id@
    }

    open spec fn sowner(&self) -> Seq<char> {
        self.user_id@
    }

    open spec fn suniq(&self) -> Option<(Seq<char>, Seq<char>)> {
        None
    }

    open spec fn sparent(&self) -> Option<Seq<char>> {
        Some(self.card_id@)
    }

    open spec fn smeta(&self) -> SyncMeta {
        SyncMeta {
            sync_status: self.sync_status,
            synced_at: self.synced_at,
            local_updated_at: self.local_updated_at,
            server_updated_at: self.server_updated_at,
        }
    }

    open spec fn svalid(&self) -> bool {
        valid_practice_mode(self.practice_mode@) && 0 <= self.quality <= 5
    }

    open spec fn with_meta(&self, m: SyncMeta) -> Self {
        LocalLearningLog {
            sync_status: m.sync_status,
            synced_at: m.synced_at,
            local_updated_at: m.local_updated_at,
            server_updated_at: m.server_updated_at,
            ..*self
        }
    }

    fn id(&self) -> &String {
        &self.id
    }

    fn owner(&self) -> &String {
        &self.user_id
    }

    fn uniq(&self) -> Option<(&String, &String)> {
        None
    }

    fn parent(&self) -> Option<&String> {
        Some(&self.card_id)
    }

    fn meta(&self) -> SyncMeta {
        SyncMeta {
            sync_status: self.sync_status,
            synced_at: self.synced_at,
            local_updated_at: self.local_updated_at,
            server_updated_at: self.server_updated_at,
        }
    }

    fn validate(&self) -> bool {
        (is_label(&self.practice_mode, "flashcard") || is_label(&self.practice_mode, "quiz")
            || is_label(&self.practice_mode, "typing") || is_label(&self.practice_mode, "listening")
            || is_label(&self.practice_mode, "reading")) && 0 <= self.quality && self.quality <= 5
    }

    fn set_meta(&mut self, m: SyncMeta) {
        self.sync_status = m.sync_status;
        self.synced_at = m.synced_at;
        self.local_updated_at = m.local_updated_at;
        self.server_updated_at = m.server_updated_at;
    }

    fn dup(&self) -> Self {
        LocalLearningLog {
            id: self.id.clone(),
            user_id: self.user_id.clone(),
            card_id: self.card_id.clone(),
            question_id: opt_str_clone(&self.question_id),
            answered_at: self.answered_at,
            is_correct: self.is_correct,
            user_answer: opt_str_clone(&self.user_answer),
            practice_mode: self.practice_mode.clone(),
            review_interval: self.review_interval,
            next_review_at: self.next_review_at,
            quality: self.quality,
            response_time: self.response_time,
            effort_time: self.effort_time,
            attempt_count: self.attempt_count,
            sync_status: self.sync_status,
            synced_at: self.synced_at,
            local_updated_at: self.local_updated_at,
            server_updated_at: self.server_updated_at,
        }
    }

    proof fn lemma_with_meta(&self, m: SyncMeta) {
    }
}

} // verus!
