//! Decks: user-owned collections of study cards.

use vstd::prelude::*;

use crate::record::{opt_str_clone, Patch, Record};
use crate::sync::{SyncMeta, SyncStatus};

verus! {

/// A locally stored deck.
#[derive(Clone, Debug, PartialEq)]
pub struct LocalDeck {
    pub id: String,
    pub user_id: String,
    pub title: String,
    pub description: Option<String>,
    pub is_public: bool,
    pub created_at: u64,
    pub updated_at: u64,
    pub sync_status: SyncStatus,
    pub synced_at: Option<u64>,
    pub local_updated_at: u64,
    pub server_updated_at: Option<u64>,
}

impl Record for LocalDeck {
    open spec fn sid(&self) -> Seq<char> {
        self.id@
    }

    open spec fn sowner(&self) -> Seq<char> {
        self.user_id@
    }

    open spec fn suniq(&self) -> Option<(Seq<char>, Seq<char>)> {
        None
    }

    open spec fn sparent(&self) -> Option<Seq<char>> {
        None
    }

    open spec fn smeta(&self) -> SyncMeta {
        SyncMeta {
            sync_status: self.sync_status,
            synced_at: self.synced_at,
            local_updated_at: self.local_updated_at,
            server_updated_at: self.server_updated_at,
        }
    }

    open spec fn svalid(&self) -> bool {
        true
    }

    open spec fn with_meta(&self, m: SyncMeta) -> Self {
        LocalDeck {
            sync_status: m.sync_status,
            synced_at: m.synced_at,
            local_updated_at: m.local_updated_at,
            server_updated_at: m.server_updated_at,
            ..*self
        }
    }

    fn id(&self) -> &String {
        &self.id
    }

    fn owner(&self) -> &String {
        &self.user_id
    }

    fn uniq(&self) -> Option<(&String, &String)> {
        None
    }

    fn parent(&self) -> Option<&String> {
        None
    }

    fn meta(&self) -> SyncMeta {
        SyncMeta {
            sync_status: self.sync_status,
            synced_at: self.synced_at,
            local_updated_at: self.local_updated_at,
            server_updated_at: self.server_updated_at,
        }
    }

    fn validate(&self) -> bool {
        true
    }

    fn set_meta(&mut self, m: SyncMeta) {
        self.sync_status = m.sync_status;
        self.synced_at = m.synced_at;
        self.local_updated_at = m.local_updated_at;
        self.server_updated_at = m.server_updated_at;
    }

    fn dup(&self) -> Self {
        LocalDeck {
            id: self.id.clone(),
            user_id: self.user_id.clone(),
            title: self.title.clone(),
            description: opt_str_clone(&self.description),
            is_public: self.is_public,
            created_at: self.created_at,
            updated_at: self.updated_at,
            sync_status: self.sync_status,
            synced_at: self.synced_at,
            local_updated_at: self.local_updated_at,
            server_updated_at: self.server_updated_at,
        }
    }

    proof fn lemma_with_meta(&self, m: SyncMeta) {
    }
}

/// A partial update of a deck.  `description` takes a doubled option so
/// that it can be cleared.
#[derive(Clone, Debug, PartialEq, Default)]
pub struct DeckUpdate {
    pub title: Option<String>,
    pub description: Option<Option<String>>,
    pub is_public: Option<bool>,
}

impl Patch<LocalDeck> for DeckUpdate {
    open spec fn sapply(&self, r: LocalDeck) -> LocalDeck {
        LocalDeck {
            title: if self.title is Some {
                self.title.unwrap()
            } else {
                r.title
            },
            description: if self.description is Some {
                self.description.unwrap()
            } else {
                r.description
            },
            is_public: if self.is_public is Some {
                self.is_public.unwrap()
            } else {
                r.is_public
            },
            ..r
        }
    }

    fn apply(&self, r: LocalDeck) -> LocalDeck {
        let title = match &self.title {
            Some(t) => t.clone(),
            None => r.title,
        };
        let description = match &self.description {
            Some(d) => opt_str_clone(d),
            None => r.description,
        };
        let is_public = match self.is_public {
            Some(b) => b,
            None => r.is_public,
        };
        LocalDeck {
            title,
            description,
            is_public,
            id: r.id,
            user_id: r.user_id,
            created_at: r.created_at,
            updated_at: r.updated_at,
            sync_status: r.sync_status,
            synced_at: r.synced_at,
            local_updated_at: r.local_updated_at,
            server_updated_at: r.server_updated_at,
        }
    }

    proof fn lemma_apply_keys(&self, r: LocalDeck) {
    }
}

} // verus!
