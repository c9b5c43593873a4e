use local_store::errors::DbError;
use local_store::pages::{LocalPage, PageUpdate};
use local_store::store::LocalDB;
use local_store::sync::{parse_status, status_label, SyncStatus};
use local_store::user_settings::LocalUserSettings;

fn page(id: &str, user: &str, note: Option<&str>, at: u64) -> LocalPage {
    LocalPage {
        id: id.to_string(),
        user_id: user.to_string(),
        note_id: note.map(|n| n.to_string()),
        title: format!("page {}", id),
        thumbnail_url: Some("thumb".to_string()),
        is_public: false,
        scrapbox_page_id: None,
        scrapbox_page_list_synced_at: None,
        scrapbox_page_content_synced_at: None,
        created_at: at,
        updated_at: at,
        sync_status: SyncStatus::Pending,
        synced_at: None,
        local_updated_at: at,
        server_updated_at: None,
    }
}

fn settings(id: &str, user: &str, at: u64) -> LocalUserSettings {
    LocalUserSettings {
        id: id.to_string(),
        user_id: user.to_string(),
        theme: "ocean".to_string(),
        mode: "light".to_string(),
        locale: "en".to_string(),
        timezone: "UTC".to_string(),
        notifications: "{}".to_string(),
        items_per_page: 20,
        play_help_video_audio: false,
        cosense_sync_enabled: false,
        notion_sync_enabled: false,
        gyazo_sync_enabled: false,
        quizlet_sync_enabled: false,
        created_at: at,
        updated_at: at,
        sync_status: SyncStatus::Pending,
        synced_at: None,
        local_updated_at: at,
        server_updated_at: None,
    }
}

#[test]
fn pages_listed_by_user_and_by_note() {
    let mut db = LocalDB::new();
    db.insert_page(&page("p1", "u1", Some("n1"), 1000)).unwrap();
    db.insert_page(&page("p2", "u1", None, 2000)).unwrap();
    db.insert_page(&page("p3", "u2", Some("n1"), 3000)).unwrap();

    let by_user = db.get_pages_by_user("u1").unwrap();
    assert_eq!(by_user.len(), 2);
    assert_eq!(by_user[0].id, "p2");
    assert_eq!(by_user[1].id, "p1");

    let by_note = db.get_pages_by_note("n1").unwrap();
    assert_eq!(by_note.len(), 2);
    assert_eq!(by_note[0].id, "p3");
    assert_eq!(by_note[1].id, "p1");
}

#[test]
fn page_update_can_clear_doubled_options() {
    let mut db = LocalDB::new();
    db.insert_page(&page("p1", "u1", Some("n1"), 1000)).unwrap();
    let u = PageUpdate {
        title: None,
        note_id: Some(None),
        thumbnail_url: Some(None),
        is_public: Some(true),
    };
    let updated = db.update_page("p1", u, 2000).unwrap().unwrap();
    assert_eq!(updated.note_id, None);
    assert_eq!(updated.thumbnail_url, None);
    assert!(updated.is_public);
    assert_eq!(updated.title, "page p1");
    assert_eq!(updated.sync_status, SyncStatus::Pending);
    assert_eq!(updated.local_updated_at, 2000);
}

#[test]
fn mark_page_synced_stamps_the_server_time() {
    let mut db = LocalDB::new();
    db.insert_page(&page("p1", "u1", None, 1000)).unwrap();
    db.mark_page_synced("p1", 4000, 4500).unwrap();
    let got = db.get_page_by_id("p1").unwrap().unwrap();
    assert_eq!(got.sync_status, SyncStatus::Synced);
    assert_eq!(got.server_updated_at, Some(4000));
    assert_eq!(got.synced_at, Some(4500));
    assert_eq!(db.get_pending_sync_pages().unwrap().len(), 0);
}

#[test]
fn one_settings_row_per_user() {
    let mut db = LocalDB::new();
    db.upsert_user_settings(&settings("s1", "u1", 1000)).unwrap();

    // A second upsert for the same user replaces the row, even under a
    // different id.
    let mut second = settings("s2", "u1", 2000);
    second.theme = "forest".to_string();
    db.upsert_user_settings(&second).unwrap();

    let got = db.get_user_settings("u1").unwrap().unwrap();
    assert_eq!(got.id, "s2");
    assert_eq!(got.theme, "forest");
}

#[test]
fn settings_keep_caller_status_on_upsert() {
    let mut db = LocalDB::new();
    let mut s = settings("s1", "u1", 1000);
    s.sync_status = SyncStatus::Synced;
    s.synced_at = Some(900);
    db.upsert_user_settings(&s).unwrap();
    let got = db.get_user_settings("u1").unwrap().unwrap();
    assert_eq!(got.sync_status, SyncStatus::Synced);
    assert_eq!(got.synced_at, Some(900));
    assert_eq!(db.get_pending_sync_user_settings().unwrap().len(), 0);
}

#[test]
fn invalid_theme_or_mode_is_validation_error() {
    let mut db = LocalDB::new();
    let mut bad_theme = settings("s1", "u1", 1000);
    bad_theme.theme = "plasma".to_string();
    assert_eq!(db.upsert_user_settings(&bad_theme), Err(DbError::ValidationError));

    let mut bad_mode = settings("s2", "u2", 1000);
    bad_mode.mode = "dusk".to_string();
    assert_eq!(db.upsert_user_settings(&bad_mode), Err(DbError::ValidationError));

    assert!(db.get_user_settings("u1").unwrap().is_none());
}

#[test]
fn missing_settings_row_is_none() {
    let db = LocalDB::new();
    assert!(db.get_user_settings("nobody").unwrap().is_none());
}

#[test]
fn status_labels_round_trip() {
    for st in [
        SyncStatus::Pending,
        SyncStatus::Synced,
        SyncStatus::Conflict,
        SyncStatus::Deleted,
    ] {
        let label = status_label(st);
        assert_eq!(parse_status(&label), Some(st));
    }
    assert_eq!(status_label(SyncStatus::Pending), "pending");
    assert_eq!(status_label(SyncStatus::Synced), "synced");
    assert_eq!(status_label(SyncStatus::Conflict), "conflict");
    assert_eq!(status_label(SyncStatus::Deleted), "deleted");
    assert_eq!(parse_status(&"limbo".to_string()), None);
}
