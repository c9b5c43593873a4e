//! User settings: at most one row per user.

use vstd::prelude::*;

use crate::record::Record;
use crate::sync::{is_label, SyncMeta, SyncStatus};

verus! {

/// The theme labels the settings may carry.
pub open spec fn valid_theme(v: Seq<char>) -> bool {
    v == "ocean"@ || v == "forest"@ || v == "sunset"@ || v == "night-sky"@ || v == "desert"@
}

/// The display-mode labels the settings may carry.
pub open spec fn valid_mode(v: Seq<char>) -> bool {
    v == "light"@ || v == "dark"@
}

/// A user's locally stored settings.  The user id doubles as the
/// uniqueness key: one row per user.
#[derive(Clone, Debug, PartialEq)]
pub struct LocalUserSettings {
    pub id: String,
    pub user_id: String,
    pub theme: String,
    pub mode: String,
    pub locale: String,
    pub timezone: String,
    pub notifications: String,
    pub items_per_page: i32,
    pub play_help_video_audio: bool,
    pub cosense_sync_enabled: bool,
    pub notion_sync_enabled: bool,
    pub gyazo_sync_enabled: bool,
    pub quizlet_sync_enabled: bool,
    pub created_at: u64,
    pub updated_at: u64,
    pub sync_status: SyncStatus,
    pub synced_at: Option<u64>,
    pub local_updated_at: u64,
    pub server_updated_at: Option<u64>,
}

impl Record for LocalUserSettings {
    open spec fn sid(&self) -> Seq<char> {
        self.id@
    }

    open spec fn sowner(&self) -> Seq<char> {
        self.user_id@
    }

    open spec fn suniq(&self) -> Option<(Seq<char>, Seq<char>)> {
        Some((self.user_id@, self.user_id@))
    }

    open spec fn sparent(&self) -> Option<Seq<char>> {
        None
    }

    open spec fn smeta(&self) -> SyncMeta {
        SyncMeta {
            sync_status: self.sync_status,
            synced_at: self.synced_at,
            local_updated_at: self.local_updated_at,
            server_updated_at: self.server_updated_at,
        }
    }

    open spec fn svalid(&self) -> bool {
        valid_theme(self.theme@) && valid_mode(self.mode@)
    }

    open spec fn with_meta(&self, m: SyncMeta) -> Self {
        LocalUserSettings {
            sync_status: m.sync_status,
            synced_at: m.synced_at,
            local_updated_at: m.local_updated_at,
            server_updated_at: m.server_updated_at,
            ..*self
        }
    }

    fn id(&self) -> &String {
        &self.id
    }

    fn owner(&self) -> &String {
        &self.user_id
    }

    fn uniq(&self) -> Option<(&String, &String)> {
        Some((&self.user_id, &self.user_id))
    }

    fn parent(&self) -> Option<&String> {
        None
    }

    fn meta(&self) -> SyncMeta {
        SyncMeta {
            sync_status: self.sync_status,
            synced_at: self.synced_at,
            local_updated_at: self.local_updated_at,
            server_updated_at: self.server_updated_at,
        }
    }

    fn validate(&self) -> bool {
        (is_label(&self.theme, "ocean") || is_label(&self.theme, "forest") || is_label(
            &self.theme,
            "sunset",
        ) || is_label(&self.theme, "night-sky") || is_label(&self.theme, "desert")) && (is_label(
            &self.mode,
            "light",
        ) || is_label(&self.mode, "dark"))
    }

    fn set_meta(&mut self, m: SyncMeta) {
        self.sync_status = m.sync_status;
        self.synced_at = m.synced_at;
        self.local_updated_at = m.local_updated_at;
        self.server_updated_at = m.server_updated_at;
    }

    fn dup(&self) -> Self {
        LocalUserSettings {
            id: self.id.clone(),
            user_id: self.user_id.clone(),
            theme: self.theme.clone(),
            mode: self.mode.clone(),
            locale: self.locale.clone(),
            timezone: self.timezone.clone(),
            notifications: self.notifications.clone(),
            items_per_page: self.items_per_page,
            play_help_video_audio: self.play_help_video_audio,
            cosense_sync_enabled: self.cosense_sync_enabled,
            notion_sync_enabled: self.notion_sync_enabled,
            gyazo_sync_enabled: self.gyazo_sync_enabled,
            quizlet_sync_enabled: self.quizlet_sync_enabled,
            created_at: self.created_at,
            updated_at: self.updated_at,
            sync_status: self.sync_status,
            synced_at: self.synced_at,
            local_updated_at: self.local_updated_at,
            server_updated_at: self.server_updated_at,
        }
    }

    proof fn lemma_with_meta(&self, m: SyncMeta) {
    }
}

} // verus!
