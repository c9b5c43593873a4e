//! Notes: user-owned documents, unique per owner and slug.

use vstd::prelude::*;

use crate::record::{opt_str_clone, Patch, Record};
use crate::sync::{is_label, SyncMeta, SyncStatus};

verus! {

/// The visibility labels a note may carry.
pub open spec fn valid_visibility(v: Seq<char>) -> bool {
    v == "public"@ || v == "unlisted"@ || v == "invite"@ || v == "private"@
}

/// A locally stored note.
#[derive(Clone, Debug, PartialEq)]
pub struct LocalNote {
    pub id: String,
    pub owner_id: String,
    pub slug: String,
    pub title: String,
    pub description: Option<String>,
    pub visibility: String,
    pub created_at: u64,
    pub updated_at: u64,
    pub is_trashed: bool,
    pub trashed_at: Option<u64>,
    pub sync_status: SyncStatus,
    pub synced_at: Option<u64>,
    pub local_updated_at: u64,
    pub server_updated_at: Option<u64>,
}

impl Record for LocalNote {
    open spec fn sid(&self) -> Seq<char> {
        self.id@
    }

    open spec fn sowner(&self) -> Seq<char> {
        self.owner_id@
    }

    open spec fn suniq(&self) -> Option<(Seq<char>, Seq<char>)> {
        Some((self.owner_id@, self.slug@))
    }

    open spec fn sparent(&self) -> Option<Seq<char>> {
        None
    }

    open spec fn smeta(&self) -> SyncMeta {
        SyncMeta {
            sync_status: self.sync_status,
            synced_at: self.synced_at,
            local_updated_at: self.local_updated_at,
            server_updated_at: self.server_updated_at,
        }
    }

    open spec fn svalid(&self) -> bool {
        valid_visibility(self.visibility@)
    }

    open spec fn with_meta(&self, m: SyncMeta) -> Self {
        LocalNote {
            sync_status: m.sync_status,
            synced_at: m.synced_at,
            local_updated_at: m.local_updated_at,
            server_updated_at: m.server_updated_at,
            ..*self
        }
    }

    fn id(&self) -> &String {
        &self.id
    }

    fn owner(&self) -> &String {
        &self.owner_id
    }

    fn uniq(&self) -> Option<(&String, &String)> {
        Some((&self.owner_id, &self.slug))
    }

    fn parent(&self) -> Option<&String> {
        None
    }

    fn meta(&self) -> SyncMeta {
        SyncMeta {
            sync_status: self.sync_status,
            synced_at: self.synced_at,
            local_updated_at: self.local_updated_at,
            server_updated_at: self.server_updated_at,
        }
    }

    fn validate(&self) -> bool {
        is_label(&self.visibility, "public") || is_label(&self.visibility, "unlisted") || is_label(
            &self.visibility,
            "invite",
        ) || is_label(&self.visibility, "private")
    }

    fn set_meta(&mut self, m: SyncMeta) {
        self.sync_status = m.sync_status;
        self.synced_at = m.synced_at;
        self.local_updated_at = m.local_updated_at;
        self.server_updated_at = m.server_updated_at;
    }

    fn dup(&self) -> Self {
        LocalNote {
            id: self.id.clone(),
            owner_id: self.owner_id.clone(),
            slug: self.slug.clone(),
            title: self.title.clone(),
            description: opt_str_clone(&self.description),
            visibility: self.visibility.clone(),
            created_at: self.created_at,
            updated_at: self.updated_at,
            is_trashed: self.is_trashed,
            trashed_at: self.trashed_at,
            sync_status: self.sync_status,
            synced_at: self.synced_at,
            local_updated_at: self.local_updated_at,
            server_updated_at: self.server_updated_at,
        }
    }

    proof fn lemma_with_meta(&self, m: SyncMeta) {
    }
}

/// A partial update of a note.  A field left `None` keeps the stored
/// value; `description` and `trashed_at` can therefore be replaced but
/// not cleared through an update.
#[derive(Clone, Debug, PartialEq, Default)]
pub struct NoteUpdate {
    pub title: Option<String>,
    pub description: Option<String>,
    pub visibility: Option<String>,
    pub is_trashed: Option<bool>,
    pub trashed_at: Option<u64>,
}

impl Patch<LocalNote> for NoteUpdate {
    open spec fn sapply(&self, r: LocalNote) -> LocalNote {
        LocalNote {
            title: if self.title is Some {
                self.title.unwrap()
            } else {
                r.title
            },
            description: if self.description is Some {
                self.description
            } else {
                r.description
            },
            visibility: if self.visibility is Some {
                self.visibility.unwrap()
            } else {
                r.visibility
            },
            is_trashed: if self.is_trashed is Some {
                self.is_trashed.unwrap()
            } else {
                r.is_trashed
            },
            trashed_at: if self.trashed_at is Some {
                self.trashed_at
            } else {
                r.trashed_at
            },
            ..r
        }
    }

    fn apply(&self, r: LocalNote) -> LocalNote {
        let title = match &self.title {
            Some(t) => t.clone(),
            None => r.title,
        };
        let description = match &self.description {
            Some(d) => Some(d.clone()),
            None => r.description,
        };
        let visibility = match &self.visibility {
            Some(v) => v.clone(),
            None => r.visibility,
        };
        let is_trashed = match self.is_trashed {
            Some(b) => b,
            None => r.is_trashed,
        };
        let trashed_at = match self.trashed_at {
            Some(t) => Some(t),
            None => r.trashed_at,
        };
        LocalNote {
            title,
            description,
            visibility,
            is_trashed,
            trashed_at,
            id: r.id,
            owner_id: r.owner_id,
            slug: r.slug,
            created_at: r.created_at,
            updated_at: r.updated_at,
            sync_status: r.sync_status,
            synced_at: r.synced_at,
            local_updated_at: r.local_updated_at,
            server_updated_at: r.server_updated_at,
        }
    }

    proof fn lemma_apply_keys(&self, r: LocalNote) {
    }
}

} // verus!
