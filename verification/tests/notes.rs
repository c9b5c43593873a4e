use local_store::errors::DbError;
use local_store::notes::{LocalNote, NoteUpdate};
use local_store::store::LocalDB;
use local_store::sync::SyncStatus;

fn note(id: &str, owner: &str, slug: &str, title: &str, at: u64) -> LocalNote {
    LocalNote {
        id: id.to_string(),
        owner_id: owner.to_string(),
        slug: slug.to_string(),
        title: title.to_string(),
        description: None,
        visibility: "private".to_string(),
        created_at: at,
        updated_at: at,
        is_trashed: false,
        trashed_at: None,
        sync_status: SyncStatus::Pending,
        synced_at: None,
        local_updated_at: at,
        server_updated_at: None,
    }
}

#[test]
fn test_insert_and_get_note() {
    let mut db = LocalDB::new();

    let mut n = note("test-note-1", "test-user-1", "test-note", "Test Note", 1000);
    n.description = Some("Test description".to_string());

    db.insert_note(&n).unwrap();

    let retrieved = db.get_note_by_id("test-note-1").unwrap();
    assert!(retrieved.is_some());
    let retrieved = retrieved.unwrap();
    assert_eq!(retrieved.id, "test-note-1");
    assert_eq!(retrieved.title, "Test Note");
}

#[test]
fn created_note_is_returned_exactly() {
    let mut db = LocalDB::new();
    let mut n = note("n9", "u9", "s9", "Exact", 1234);
    n.description = Some("kept word for word".to_string());
    n.is_trashed = true;
    n.trashed_at = Some(999);
    db.insert_note(&n).unwrap();
    assert_eq!(db.get_note_by_id("n9").unwrap().unwrap(), n);
}

#[test]
fn test_get_notes_by_owner() {
    let mut db = LocalDB::new();

    let note1 = note("note-1", "user-1", "note-1", "Note 1", 1000);
    let note2 = note("note-2", "user-1", "note-2", "Note 2", 1000);
    let note3 = note("note-3", "user-2", "note-3", "Note 3", 1000);

    db.insert_note(&note1).unwrap();
    db.insert_note(&note2).unwrap();
    db.insert_note(&note3).unwrap();

    let user1_notes = db.get_notes_by_owner("user-1").unwrap();
    assert_eq!(user1_notes.len(), 2);

    let user2_notes = db.get_notes_by_owner("user-2").unwrap();
    assert_eq!(user2_notes.len(), 1);
}

#[test]
fn test_delete_note() {
    let mut db = LocalDB::new();

    let n = note("test-note", "test-user", "test", "Test", 1000);

    db.insert_note(&n).unwrap();
    let result = db.delete_note("test-note", 2000).unwrap();
    assert!(result);

    // A tombstoned note leaves the normal listing.
    let notes = db.get_notes_by_owner("test-user").unwrap();
    assert_eq!(notes.len(), 0);

    // It still appears in the deleted-records listing.
    let deleted = db.get_deleted_notes().unwrap();
    assert_eq!(deleted.len(), 1);
    assert_eq!(deleted[0].sync_status, SyncStatus::Deleted);
}

#[test]
fn pending_queue_and_mark_synced() {
    // Insert a pending note, see it in the outbound queue, acknowledge
    // it at the server time of the first day of 2024, and see it leave
    // the queue.
    let t0: u64 = 1_704_067_200_000;
    let mut db = LocalDB::new();
    let n = note("n1", "u1", "s1", "First", 1000);
    db.insert_note(&n).unwrap();

    let pending = db.get_pending_sync_notes().unwrap();
    assert_eq!(pending.len(), 1);
    assert_eq!(pending[0].id, "n1");

    db.mark_note_synced("n1", t0, 5000).unwrap();

    let got = db.get_note_by_id("n1").unwrap().unwrap();
    assert_eq!(got.sync_status, SyncStatus::Synced);
    assert_eq!(got.server_updated_at, Some(t0));
    assert_eq!(got.synced_at, Some(5000));

    let pending_after = db.get_pending_sync_notes().unwrap();
    assert_eq!(pending_after.len(), 0);
}

#[test]
fn mark_synced_twice_is_idempotent() {
    let t: u64 = 1_704_067_200_000;
    let mut db = LocalDB::new();
    db.insert_note(&note("n1", "u1", "s1", "First", 1000)).unwrap();

    db.mark_note_synced("n1", t, 5000).unwrap();
    let once = db.get_note_by_id("n1").unwrap().unwrap();
    db.mark_note_synced("n1", t, 5000).unwrap();
    let twice = db.get_note_by_id("n1").unwrap().unwrap();

    assert_eq!(once.sync_status, SyncStatus::Synced);
    assert_eq!(once.server_updated_at, Some(t));
    assert_eq!(twice.sync_status, SyncStatus::Synced);
    assert_eq!(twice.server_updated_at, Some(t));
    assert_eq!(once, twice);
}

#[test]
fn mark_synced_missing_id_is_not_found() {
    let mut db = LocalDB::new();
    assert_eq!(db.mark_note_synced("ghost", 1, 2), Err(DbError::NotFound));
}

#[test]
fn duplicate_owner_slug_is_conflict() {
    // Two notes with the same owner and slug: the second creation fails
    // with a conflict and the store retains only the first.
    let mut db = LocalDB::new();
    let first = note("n1", "u1", "s1", "First", 1000);
    let second = note("n2", "u1", "s1", "Second", 2000);

    db.insert_note(&first).unwrap();
    assert_eq!(db.insert_note(&second), Err(DbError::Conflict));

    assert_eq!(db.get_note_by_id("n1").unwrap().unwrap().title, "First");
    assert!(db.get_note_by_id("n2").unwrap().is_none());
    assert_eq!(db.get_notes_by_owner("u1").unwrap().len(), 1);
}

#[test]
fn duplicate_id_is_conflict() {
    let mut db = LocalDB::new();
    db.insert_note(&note("n1", "u1", "s1", "First", 1000)).unwrap();
    let same_id = note("n1", "u2", "s2", "Other", 2000);
    assert_eq!(db.insert_note(&same_id), Err(DbError::Conflict));
}

#[test]
fn invalid_visibility_is_validation_error() {
    let mut db = LocalDB::new();
    let mut n = note("n1", "u1", "s1", "First", 1000);
    n.visibility = "secret".to_string();
    assert_eq!(db.insert_note(&n), Err(DbError::ValidationError));
    assert!(db.get_note_by_id("n1").unwrap().is_none());
}

#[test]
fn update_sets_pending_and_keeps_unnamed_fields() {
    let mut db = LocalDB::new();
    let mut n = note("n1", "u1", "s1", "Old title", 1000);
    n.description = Some("desc".to_string());
    db.insert_note(&n).unwrap();
    db.mark_note_synced("n1", 1500, 1600).unwrap();

    let u = NoteUpdate {
        title: Some("New title".to_string()),
        description: None,
        visibility: None,
        is_trashed: None,
        trashed_at: None,
    };
    let updated = db.update_note("n1", u, 3000).unwrap().unwrap();

    assert_eq!(updated.title, "New title");
    assert_eq!(updated.sync_status, SyncStatus::Pending);
    assert!(updated.local_updated_at >= 1000);
    assert_eq!(updated.local_updated_at, 3000);
    // Fields the patch does not name are unchanged.
    assert_eq!(updated.description, Some("desc".to_string()));
    assert_eq!(updated.visibility, "private");
    assert_eq!(updated.owner_id, "u1");
    assert_eq!(updated.slug, "s1");
    assert_eq!(updated.created_at, 1000);
    // The acknowledgement bookkeeping is untouched by a field update.
    assert_eq!(updated.synced_at, Some(1600));
    assert_eq!(updated.server_updated_at, Some(1500));
    // The stored record equals the returned one.
    assert_eq!(db.get_note_by_id("n1").unwrap().unwrap(), updated);
}

#[test]
fn update_never_moves_local_stamp_backwards() {
    let mut db = LocalDB::new();
    db.insert_note(&note("n1", "u1", "s1", "Old", 5000)).unwrap();
    let u = NoteUpdate {
        title: Some("New".to_string()),
        description: None,
        visibility: None,
        is_trashed: None,
        trashed_at: None,
    };
    // The injected clock lags behind the stored stamp; the stamp stays.
    let updated = db.update_note("n1", u, 4000).unwrap().unwrap();
    assert_eq!(updated.local_updated_at, 5000);
    assert_eq!(updated.sync_status, SyncStatus::Pending);
}

#[test]
fn update_to_invalid_visibility_is_rejected() {
    let mut db = LocalDB::new();
    db.insert_note(&note("n1", "u1", "s1", "Old", 1000)).unwrap();
    let u = NoteUpdate {
        title: None,
        description: None,
        visibility: Some("secret".to_string()),
        is_trashed: None,
        trashed_at: None,
    };
    assert_eq!(db.update_note("n1", u, 2000), Err(DbError::ValidationError));
    // The store is unchanged.
    let got = db.get_note_by_id("n1").unwrap().unwrap();
    assert_eq!(got.visibility, "private");
    assert_eq!(got.sync_status, SyncStatus::Pending);
    assert_eq!(got.local_updated_at, 1000);
}

#[test]
fn update_missing_id_returns_none() {
    let mut db = LocalDB::new();
    let u = NoteUpdate::default();
    assert_eq!(db.update_note("ghost", u, 1000).unwrap(), None);
}

#[test]
fn update_resurrects_tombstone_to_pending() {
    // An update to a tombstoned record deliberately returns it to the
    // pending state.
    let mut db = LocalDB::new();
    db.insert_note(&note("n1", "u1", "s1", "Old", 1000)).unwrap();
    db.delete_note("n1", 2000).unwrap();
    let u = NoteUpdate {
        title: Some("Back".to_string()),
        description: None,
        visibility: None,
        is_trashed: None,
        trashed_at: None,
    };
    let updated = db.update_note("n1", u, 3000).unwrap().unwrap();
    assert_eq!(updated.sync_status, SyncStatus::Pending);
    assert_eq!(db.get_notes_by_owner("u1").unwrap().len(), 1);
}

#[test]
fn overwrite_from_remote_wins_unconditionally() {
    let mut db = LocalDB::new();
    let mut local = note("n1", "u1", "s1", "Local title", 1000);
    local.description = Some("local".to_string());
    db.insert_note(&local).unwrap();

    let mut remote = note("n1", "u1", "s1", "Remote title", 9000);
    remote.description = Some("remote".to_string());
    db.overwrite_note_with_server(&remote, 9500).unwrap();

    let got = db.get_note_by_id("n1").unwrap().unwrap();
    assert_eq!(got.title, "Remote title");
    assert_eq!(got.description, Some("remote".to_string()));
    assert_eq!(got.sync_status, SyncStatus::Synced);
    assert_eq!(got.synced_at, Some(9500));
    // Both update stamps take the remote's own update time.
    assert_eq!(got.local_updated_at, 9000);
    assert_eq!(got.server_updated_at, Some(9000));
    assert_eq!(db.get_notes_by_owner("u1").unwrap().len(), 1);
}

#[test]
fn hard_delete_note_removes_the_row() {
    let mut db = LocalDB::new();
    db.insert_note(&note("n1", "u1", "s1", "First", 1000)).unwrap();
    db.hard_delete_note("n1").unwrap();
    assert!(db.get_note_by_id("n1").unwrap().is_none());
    assert_eq!(db.get_deleted_notes().unwrap().len(), 0);
}

#[test]
fn listing_orders_by_recency_then_id() {
    let mut db = LocalDB::new();
    db.insert_note(&note("b", "u1", "sb", "B", 2000)).unwrap();
    db.insert_note(&note("c", "u1", "sc", "C", 3000)).unwrap();
    db.insert_note(&note("a", "u1", "sa", "A", 3000)).unwrap();

    let listed = db.get_notes_by_owner("u1").unwrap();
    assert_eq!(listed.len(), 3);
    // Most recently touched first; the tie at 3000 breaks by id.
    assert_eq!(listed[0].id, "a");
    assert_eq!(listed[1].id, "c");
    assert_eq!(listed[2].id, "b");
}

#[test]
fn tombstone_still_fetchable_by_id() {
    let mut db = LocalDB::new();
    db.insert_note(&note("n1", "u1", "s1", "First", 1000)).unwrap();
    db.delete_note("n1", 2000).unwrap();
    let got = db.get_note_by_id("n1").unwrap().unwrap();
    assert_eq!(got.sync_status, SyncStatus::Deleted);
    assert_eq!(got.title, "First");
    assert_eq!(got.local_updated_at, 2000);
}

#[test]
fn delete_missing_note_reports_false() {
    let mut db = LocalDB::new();
    assert!(!db.delete_note("ghost", 1000).unwrap());
}
