//! Pages: user-owned documents, optionally attached to a note.

use vstd::prelude::*;

use crate::record::{opt_str_clone, Patch, Record};
use crate::sync::{SyncMeta, SyncStatus};

verus! {

/// A locally stored page.
#[derive(Clone, Debug, PartialEq)]
pub struct LocalPage {
    pub id: String,
    pub user_id: String,
    pub note_id: Option<String>,
    pub title: String,
    pub thumbnail_url: Option<String>,
    pub is_public: bool,
    pub scrapbox_page_id: Option<String>,
    pub scrapbox_page_list_synced_at: Option<u64>,
    pub scrapbox_page_content_synced_at: Option<u64>,
    pub created_at: u64,
    pub updated_at: u64,
    pub sync_status: SyncStatus,
    pub synced_at: Option<u64>,
    pub local_updated_at: u64,
    pub server_updated_at: Option<u64>,
}

impl Record for LocalPage {
    open spec fn sid(&self) -> Seq<char> {
        self.id@
    }

    open spec fn sowner(&self) -> Seq<char> {
        self.user_id@
    }

    open spec fn suniq(&self) -> Option<(Seq<char>, Seq<char>)> {
        None
    }

    open spec fn sparent(&self) -> Option<Seq<char>> {
        match self.note_id {
            Some(n) => Some(n@),
            None => None,
        }
    }

    open spec fn smeta(&self) -> SyncMeta {
        SyncMeta {
            sync_status: self.sync_status,
            synced_at: self.synced_at,
            local_updated_at: self.local_updated_at,
            server_updated_at: self.server_updated_at,
        }
    }

    open spec fn svalid(&self) -> bool {
        true
    }

    open spec fn with_meta(&self, m: SyncMeta) -> Self {
        LocalPage {
            sync_status: m.sync_status,
            synced_at: m.synced_at,
            local_updated_at: m.local_updated_at,
            server_updated_at: m.server_updated_at,
            ..*self
        }
    }

    fn id(&self) -> &String {
        &self.id
    }

    fn owner(&self) -> &String {
        &self.user_id
    }

    fn uniq(&self) -> Option<(&String, &String)> {
        None
    }

    fn parent(&self) -> Option<&String> {
        match &self.note_id {
            Some(n) => Some(n),
            None => None,
        }
    }

    fn meta(&self) -> SyncMeta {
        SyncMeta {
            sync_status: self.sync_status,
            synced_at: self.synced_at,
            local_updated_at: self.local_updated_at,
            server_updated_at: self.server_updated_at,
        }
    }

    fn validate(&self) -> bool {
        true
    }

    fn set_meta(&mut self, m: SyncMeta) {
        self.sync_status = m.sync_status;
        self.synced_at = m.synced_at;
        self.local_updated_at = m.local_updated_at;
        self.server_updated_at = m.server_updated_at;
    }

    fn dup(&self) -> Self {
        LocalPage {
            id: self.id.clone(),
            user_id: self.user_id.clone(),
            note_id: opt_str_clone(&self.note_id),
            title: self.title.clone(),
            thumbnail_url: opt_str_clone(&self.thumbnail_url),
            is_public: self.is_public,
            scrapbox_page_id: opt_str_clone(&self.scrapbox_page_id),
            scrapbox_page_list_synced_at: self.scrapbox_page_list_synced_at,
            scrapbox_page_content_synced_at: self.scrapbox_page_content_synced_at,
            created_at: self.created_at,
            updated_at: self.updated_at,
            sync_status: self.sync_status,
            synced_at: self.synced_at,
            local_updated_at: self.local_updated_at,
            server_updated_at: self.server_updated_at,
        }
    }

    proof fn lemma_with_meta(&self, m: SyncMeta) {
    }
}

/// A partial update of a page.  `note_id` and `thumbnail_url` take a
/// doubled option: the outer level says whether to touch the field, the
/// inner level is the new value, so both can be cleared.
#[derive(Clone, Debug, PartialEq, Default)]
pub struct PageUpdate {
    pub title: Option<String>,
    pub note_id: Option<Option<String>>,
    pub thumbnail_url: Option<Option<String>>,
    pub is_public: Option<bool>,
}

impl Patch<LocalPage> for PageUpdate {
    open spec fn sapply(&self, r: LocalPage) -> LocalPage {
        LocalPage {
            title: if self.title is Some {
                self.title.unwrap()
            } else {
                r.title
            },
            note_id: if self.note_id is Some {
                self.note_id.unwrap()
            } else {
                r.note_id
            },
            thumbnail_url: if self.thumbnail_url is Some {
                self.thumbnail_url.unwrap()
            } else {
                r.thumbnail_url
            },
            is_public: if self.is_public is Some {
                self.is_public.unwrap()
            } else {
                r.is_public
            },
            ..r
        }
    }

    fn apply(&self, r: LocalPage) -> LocalPage {
        let title = match &self.title {
            Some(t) => t.clone(),
            None => r.title,
        };
        let note_id = match &self.note_id {
            Some(n) => opt_str_clone(n),
            None => r.note_id,
        };
        let thumbnail_url = match &self.thumbnail_url {
            Some(u) => opt_str_clone(u),
            None => r.thumbnail_url,
        };
        let is_public = match self.is_public {
            Some(b) => b,
            None => r.is_public,
        };
        LocalPage {
            title,
            note_id,
            thumbnail_url,
            is_public,
            id: r.id,
            user_id: r.user_id,
            scrapbox_page_id: r.scrapbox_page_id,
            scrapbox_page_list_synced_at: r.scrapbox_page_list_synced_at,
            scrapbox_page_content_synced_at: r.scrapbox_page_content_synced_at,
            created_at: r.created_at,
            updated_at: r.updated_at,
            sync_status: r.sync_status,
            synced_at: r.synced_at,
            local_updated_at: r.local_updated_at,
            server_updated_at: r.server_updated_at,
        }
    }

    proof fn lemma_apply_keys(&self, r: LocalPage) {
    }
}

} // verus!
