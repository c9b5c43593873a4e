//! The local store: one relation per entity kind, the uniform operation
//! set over each, and referential integrity across them — every card
//! references an existing deck, every learning log an existing card,
//! every milestone an existing study goal, and physically deleting a
//! parent cascades to its dependents.
//!
//! Wall-clock time is an injected dependency: every mutation that stamps
//! a time takes `now` as an argument, so sync-state transitions are
//! testable with controlled timestamps.

use vstd::prelude::*;

use crate::cards::{card_due, due_ordered, list_due, LocalCard, CardUpdate};
use crate::decks::{DeckUpdate, LocalDeck};
use crate::errors::DbError;
use crate::learning_logs::LocalLearningLog;
use crate::milestones::LocalMilestone;
use crate::notes::{LocalNote, NoteUpdate};
use crate::pages::{LocalPage, PageUpdate};
use crate::record::Record;
use crate::study_goals::LocalStudyGoal;
use crate::sync::{SyncMeta, SyncStatus};
use crate::table::{
    conflicts_with, has_id, lemma_has_id_push, recency_ordered, row_child, row_listed, rows_wf,
    spec_child_ids, spec_find, spec_find_owned, spec_hard_delete, spec_mark_synced, spec_patched,
    spec_prune_children, spec_replace_insert, spec_soft_delete, spec_update_rows, parent_among,
    Table,
};
use crate::user_settings::LocalUserSettings;

verus! {

/// The local store: eight relations behind one handle.
pub struct LocalDB {
    notes: Table<LocalNote>,
    pages: Table<LocalPage>,
    decks: Table<LocalDeck>,
    cards: Table<LocalCard>,
    study_goals: Table<LocalStudyGoal>,
    learning_logs: Table<LocalLearningLog>,
    milestones: Table<LocalMilestone>,
    user_settings: Table<LocalUserSettings>,
}

impl LocalDB {
    /// The stored notes, in storage order.
    pub closed spec fn notes_view(&self) -> Seq<LocalNote> {
        self.notes@
    }

    /// The stored pages, in storage order.
    pub closed spec fn pages_view(&self) -> Seq<LocalPage> {
        self.pages@
    }

    /// The stored decks, in storage order.
    pub closed spec fn decks_view(&self) -> Seq<LocalDeck> {
        self.decks@
    }

    /// The stored cards, in storage order.
    pub closed spec fn cards_view(&self) -> Seq<LocalCard> {
        self.cards@
    }

    /// The stored study goals, in storage order.
    pub closed spec fn study_goals_view(&self) -> Seq<LocalStudyGoal> {
        self.study_goals@
    }

    /// The stored learning logs, in storage order.
    pub closed spec fn learning_logs_view(&self) -> Seq<LocalLearningLog> {
        self.learning_logs@
    }

    /// The stored milestones, in storage order.
    pub closed spec fn milestones_view(&self) -> Seq<LocalMilestone> {
        self.milestones@
    }

    /// The stored user settings, in storage order.
    pub closed spec fn user_settings_view(&self) -> Seq<LocalUserSettings> {
        self.user_settings@
    }

    /// Referential integrity: every card references a stored deck, every
    /// learning log a stored card, every milestone a stored study goal.
    pub open spec fn links_ok(&self) -> bool {
        &&& forall|i: int|
            0 <= i < self.cards_view().len() ==> has_id(
                self.decks_view(),
                (#[trigger] self.cards_view()[i]).deck_id@,
            )
        &&& forall|i: int|
            0 <= i < self.learning_logs_view().len() ==> has_id(
                self.cards_view(),
                (#[trigger] self.learning_logs_view()[i]).card_id@,
            )
        &&& forall|i: int|
            0 <= i < self.milestones_view().len() ==> has_id(
                self.study_goals_view(),
                (#[trigger] self.milestones_view()[i]).goal_id@,
            )
    }

    /// The store's invariant: each relation's integrity constraints, and
    /// referential integrity across relations.
    pub open spec fn wf(&self) -> bool {
        &&& rows_wf(self.notes_view())
        &&& rows_wf(self.pages_view())
        &&& rows_wf(self.decks_view())
        &&& rows_wf(self.cards_view())
        &&& rows_wf(self.study_goals_view())
        &&& rows_wf(self.learning_logs_view())
        &&& rows_wf(self.milestones_view())
        &&& rows_wf(self.user_settings_view())
        &&& self.links_ok()
    }

    /// An empty store.
    pub fn new() -> (db: LocalDB)
        ensures
            db.wf(),
            db.notes_view().len() == 0,
            db.pages_view().len() == 0,
            db.decks_view().len() == 0,
            db.cards_view().len() == 0,
            db.study_goals_view().len() == 0,
            db.learning_logs_view().len() == 0,
            db.milestones_view().len() == 0,
            db.user_settings_view().len() == 0,
    {
        LocalDB {
            notes: Table::new(),
            pages: Table::new(),
            decks: Table::new(),
            cards: Table::new(),
            study_goals: Table::new(),
            learning_logs: Table::new(),
            milestones: Table::new(),
            user_settings: Table::new(),
        }
    }
}

impl LocalDB {
    /// A copy of every stored note, in storage order.
    pub fn all_notes(&self) -> (r: Vec<LocalNote>)
        ensures
            r@ == self.notes_view(),
    {
        self.notes.all()
    }

    /// A copy of every stored page, in storage order.
    pub fn all_pages(&self) -> (r: Vec<LocalPage>)
        ensures
            r@ == self.pages_view(),
    {
        self.pages.all()
    }

    /// A copy of every stored deck, in storage order.
    pub fn all_decks(&self) -> (r: Vec<LocalDeck>)
        ensures
            r@ == self.decks_view(),
    {
        self.decks.all()
    }

    /// A copy of every stored card, in storage order.
    pub fn all_cards(&self) -> (r: Vec<LocalCard>)
        ensures
            r@ == self.cards_view(),
    {
        self.cards.all()
    }

    /// A copy of every stored study goal, in storage order.
    pub fn all_study_goals(&self) -> (r: Vec<LocalStudyGoal>)
        ensures
            r@ == self.study_goals_view(),
    {
        self.study_goals.all()
    }

    /// A copy of every stored learning log, in storage order.
    pub fn all_learning_logs(&self) -> (r: Vec<LocalLearningLog>)
        ensures
            r@ == self.learning_logs_view(),
    {
        self.learning_logs.all()
    }

    /// A copy of every stored milestone, in storage order.
    pub fn all_milestones(&self) -> (r: Vec<LocalMilestone>)
        ensures
            r@ == self.milestones_view(),
    {
        self.milestones.all()
    }

    /// A copy of every stored settings row, in storage order.
    pub fn all_user_settings(&self) -> (r: Vec<LocalUserSettings>)
        ensures
            r@ == self.user_settings_view(),
    {
        self.user_settings.all()
    }
}

/// Every relation but the notes is the same in both stores.
pub open spec fn same_but_notes(a: LocalDB, b: LocalDB) -> bool {
    &&& a.pages_view() == b.pages_view()
    &&& a.decks_view() == b.decks_view()
    &&& a.cards_view() == b.cards_view()
    &&& a.study_goals_view() == b.study_goals_view()
    &&& a.learning_logs_view() == b.learning_logs_view()
    &&& a.milestones_view() == b.milestones_view()
    &&& a.user_settings_view() == b.user_settings_view()
}

/// Every relation but the pages is the same in both stores.
pub open spec fn same_but_pages(a: LocalDB, b: LocalDB) -> bool {
    &&& a.notes_view() == b.notes_view()
    &&& a.decks_view() == b.decks_view()
    &&& a.cards_view() == b.cards_view()
    &&& a.study_goals_view() == b.study_goals_view()
    &&& a.learning_logs_view() == b.learning_logs_view()
    &&& a.milestones_view() == b.milestones_view()
    &&& a.user_settings_view() == b.user_settings_view()
}

/// Every relation but the decks is the same in both stores.
pub open spec fn same_but_decks(a: LocalDB, b: LocalDB) -> bool {
    &&& a.notes_view() == b.notes_view()
    &&& a.pages_view() == b.pages_view()
    &&& a.cards_view() == b.cards_view()
    &&& a.study_goals_view() == b.study_goals_view()
    &&& a.learning_logs_view() == b.learning_logs_view()
    &&& a.milestones_view() == b.milestones_view()
    &&& a.user_settings_view() == b.user_settings_view()
}

/// Every relation but the cards is the same in both stores.
pub open spec fn same_but_cards(a: LocalDB, b: LocalDB) -> bool {
    &&& a.notes_view() == b.notes_view()
    &&& a.pages_view() == b.pages_view()
    &&& a.decks_view() == b.decks_view()
    &&& a.study_goals_view() == b.study_goals_view()
    &&& a.learning_logs_view() == b.learning_logs_view()
    &&& a.milestones_view() == b.milestones_view()
    &&& a.user_settings_view() == b.user_settings_view()
}

/// Every relation but the study goals is the same in both stores.
pub open spec fn same_but_study_goals(a: LocalDB, b: LocalDB) -> bool {
    &&& a.notes_view() == b.notes_view()
    &&& a.pages_view() == b.pages_view()
    &&& a.decks_view() == b.decks_view()
    &&& a.cards_view() == b.cards_view()
    &&& a.learning_logs_view() == b.learning_logs_view()
    &&& a.milestones_view() == b.milestones_view()
    &&& a.user_settings_view() == b.user_settings_view()
}

/// Every relation but the learning logs is the same in both stores.
pub open spec fn same_but_learning_logs(a: LocalDB, b: LocalDB) -> bool {
    &&& a.notes_view() == b.notes_view()
    &&& a.pages_view() == b.pages_view()
    &&& a.decks_view() == b.decks_view()
    &&& a.cards_view() == b.cards_view()
    &&& a.study_goals_view() == b.study_goals_view()
    &&& a.milestones_view() == b.milestones_view()
    &&& a.user_settings_view() == b.user_settings_view()
}

/// Every relation but the milestones is the same in both stores.
pub open spec fn same_but_milestones(a: LocalDB, b: LocalDB) -> bool {
    &&& a.notes_view() == b.notes_view()
    &&& a.pages_view() == b.pages_view()
    &&& a.decks_view() == b.decks_view()
    &&& a.cards_view() == b.cards_view()
    &&& a.study_goals_view() == b.study_goals_view()
    &&& a.learning_logs_view() == b.learning_logs_view()
    &&& a.user_settings_view() == b.user_settings_view()
}

/// Every relation but the user settings is the same in both stores.
pub open spec fn same_but_user_settings(a: LocalDB, b: LocalDB) -> bool {
    &&& a.notes_view() == b.notes_view()
    &&& a.pages_view() == b.pages_view()
    &&& a.decks_view() == b.decks_view()
    &&& a.cards_view() == b.cards_view()
    &&& a.study_goals_view() == b.study_goals_view()
    &&& a.learning_logs_view() == b.learning_logs_view()
    &&& a.milestones_view() == b.milestones_view()
}

// ---------------------------------------------------------------------------
// Notes
// ---------------------------------------------------------------------------

impl LocalDB {
    /// All non-tombstoned notes of `owner_id`, most recently touched
    /// first, ties by id ascending.
    pub fn get_notes_by_owner(&self, owner_id: &str) -> (res: Result<Vec<LocalNote>, DbError>)
        ensures
            match res {
                Ok(r) => r@.to_multiset() == self.notes_view().filter(
                    (|x: LocalNote| row_listed(x, owner_id@)),
                ).to_multiset() && recency_ordered(r@),
                Err(_) => false,
            },
    {
        let owner = String::from_str(owner_id);
        Ok(self.notes.list_by_owner(&owner))
    }

    /// The note with this id, tombstoned or not.
    pub fn get_note_by_id(&self, id: &str) -> (res: Result<Option<LocalNote>, DbError>)
        ensures
            match res {
                Ok(r) => r == spec_find(self.notes_view(), id@),
                Err(_) => false,
            },
    {
        let key = String::from_str(id);
        Ok(self.notes.get(&key))
    }

    /// Inserts a new note as given — id, timestamps and sync status come
    /// from the caller.  Fails with `Conflict` if the id or the owner and
    /// slug pair is taken, and with `ValidationError` on an invalid
    /// visibility label.
    pub fn insert_note(&mut self, note: &LocalNote) -> (res: Result<(), DbError>)
        requires
            old(self).wf(),
        ensures
            final(self).wf(),
            same_but_notes(*final(self), *old(self)),
            match res {
                Ok(()) => note.svalid() && !conflicts_with(old(self).notes_view(), *note)
                    && final(self).notes_view() == old(self).notes_view().push(*note),
                Err(e) => final(self).notes_view() == old(self).notes_view() && (e
                    == DbError::ValidationError || e == DbError::Conflict) && (e
                    == DbError::ValidationError <==> !note.svalid()) && (e == DbError::Conflict
                    ==> conflicts_with(old(self).notes_view(), *note)),
            },
    {
        self.notes.create(note.dup())
    }

    /// Applies a partial update to the note with this id: the patch's
    /// fields replace the stored ones, the status returns to `Pending`
    /// and the local-update stamp is refreshed to `now` (never moved
    /// backwards).  Returns the updated note, `Ok(None)` if the id does
    /// not exist, and `ValidationError`, changing nothing, if the patched
    /// note would carry an invalid visibility label.
    pub fn update_note(&mut self, id: &str, updates: NoteUpdate, now: u64) -> (res: Result<
        Option<LocalNote>,
        DbError,
    >)
        requires
            old(self).wf(),
        ensures
            final(self).wf(),
            same_but_notes(*final(self), *old(self)),
            match res {
                Ok(r_opt) => match r_opt {
                    None => !has_id(old(self).notes_view(), id@) && final(self).notes_view()
                        == old(self).notes_view(),
                    Some(x) => has_id(old(self).notes_view(), id@) && spec_find(
                        old(self).notes_view(),
                        id@,
                    ) is Some && x == spec_patched(
                        spec_find(old(self).notes_view(), id@).unwrap(),
                        updates,
                        now,
                    ) && x.svalid() && final(self).notes_view() == spec_update_rows(
                        old(self).notes_view(),
                        id@,
                        updates,
                        now,
                    ),
                },
                Err(e) => e == DbError::ValidationError && final(self).notes_view() == old(
                    self,
                ).notes_view() && spec_find(old(self).notes_view(), id@) is Some && !spec_patched(
                    spec_find(old(self).notes_view(), id@).unwrap(),
                    updates,
                    now,
                ).svalid(),
            },
    {
        let key = String::from_str(id);
        self.notes.update(&key, &updates, now)
    }

    /// Soft delete: tombstones the note, refreshing its local-update
    /// stamp to `now`; field data is retained.  Returns whether a note
    /// with this id existed.
    pub fn delete_note(&mut self, id: &str, now: u64) -> (res: Result<bool, DbError>)
        requires
            old(self).wf(),
        ensures
            final(self).wf(),
            same_but_notes(*final(self), *old(self)),
            match res {
                Ok(r) => r == has_id(old(self).notes_view(), id@) && final(self).notes_view()
                    == spec_soft_delete(old(self).notes_view(), id@, now),
                Err(_) => false,
            },
    {
        let key = String::from_str(id);
        Ok(self.notes.soft_delete(&key, now))
    }

    /// Physical delete: removes the note's row entirely.  Nothing
    /// references notes, so nothing cascades.
    pub fn hard_delete_note(&mut self, id: &str) -> (res: Result<(), DbError>)
        requires
            old(self).wf(),
        ensures
            final(self).wf(),
            same_but_notes(*final(self), *old(self)),
            match res {
                Ok(()) => final(self).notes_view() == spec_hard_delete(
                    old(self).notes_view(),
                    id@,
                ),
                Err(_) => false,
            },
    {
        let key = String::from_str(id);
        self.notes.hard_delete(&key);
        Ok(())
    }

    /// The outbound queue: all notes whose status is `Pending`, in
    /// storage order.
    pub fn get_pending_sync_notes(&self) -> (res: Result<Vec<LocalNote>, DbError>)
        ensures
            match res {
                Ok(r) => r@ == self.notes_view().filter(
                    (|x: LocalNote| x.smeta().sync_status == SyncStatus::Pending),
                ),
                Err(_) => false,
            },
    {
        Ok(self.notes.list_with_status(SyncStatus::Pending))
    }

    /// All tombstoned notes, for outbound delete propagation.
    pub fn get_deleted_notes(&self) -> (res: Result<Vec<LocalNote>, DbError>)
        ensures
            match res {
                Ok(r) => r@ == self.notes_view().filter(
                    (|x: LocalNote| x.smeta().sync_status == SyncStatus::Deleted),
                ),
                Err(_) => false,
            },
    {
        Ok(self.notes.list_with_status(SyncStatus::Deleted))
    }

    /// Sync acknowledgement for a note: status to `Synced`, `synced_at`
    /// stamped with `now`, the server's own update time recorded.
    /// Acknowledging twice with the same server time leaves the same
    /// agreement.  Fails with `NotFound` if the id does not exist.
    pub fn mark_note_synced(&mut self, id: &str, server_updated_at: u64, now: u64) -> (res: Result<
        (),
        DbError,
    >)
        requires
            old(self).wf(),
        ensures
            final(self).wf(),
            same_but_notes(*final(self), *old(self)),
            final(self).notes_view() == spec_mark_synced(
                old(self).notes_view(),
                id@,
                server_updated_at,
                now,
            ),
            match res {
                Ok(()) => has_id(old(self).notes_view(), id@),
                Err(e) => e == DbError::NotFound && !has_id(old(self).notes_view(), id@),
            },
    {
        let key = String::from_str(id);
        self.notes.mark_synced(&key, server_updated_at, now)
    }

    /// Conflict resolution: the remote value wins unconditionally.  Any
    /// stored note colliding with the payload (same id, or same owner and
    /// slug) leaves, and the payload is stored `Synced`, with `synced_at`
    /// stamped `now` and both update stamps taken from the remote's own
    /// update time (the note's `updated_at`).
    pub fn overwrite_note_with_server(&mut self, note: &LocalNote, now: u64) -> (res: Result<
        (),
        DbError,
    >)
        requires
            old(self).wf(),
        ensures
            final(self).wf(),
            same_but_notes(*final(self), *old(self)),
            match res {
                Ok(()) => final(self).notes_view() == spec_replace_insert(
                    old(self).notes_view(),
                    note.with_meta(SyncMeta::from_remote(note.updated_at, now)),
                ),
                Err(e) => e == DbError::ValidationError && !note.svalid()
                    && final(self).notes_view() == old(self).notes_view(),
            },
    {
        let mut incoming = note.dup();
        incoming.set_meta(
            SyncMeta {
                sync_status: SyncStatus::Synced,
                synced_at: Some(now),
                local_updated_at: note.updated_at,
                server_updated_at: Some(note.updated_at),
            },
        );
        proof {
            note.lemma_with_meta(SyncMeta::from_remote(note.updated_at, now));
        }
        self.notes.replace_insert(incoming)
    }
}

// ---------------------------------------------------------------------------
// Pages
// ---------------------------------------------------------------------------

impl LocalDB {
    /// All non-tombstoned pages of `user_id`, most recently touched
    /// first, ties by id ascending.
    pub fn get_pages_by_user(&self, user_id: &str) -> (res: Result<Vec<LocalPage>, DbError>)
        ensures
            match res {
                Ok(r) => r@.to_multiset() == self.pages_view().filter(
                    (|x: LocalPage| row_listed(x, user_id@)),
                ).to_multiset() && recency_ordered(r@),
                Err(_) => false,
            },
    {
        let owner = String::from_str(user_id);
        Ok(self.pages.list_by_owner(&owner))
    }

    /// All non-tombstoned pages attached to the note `note_id`, most
    /// recently touched first, ties by id ascending.
    pub fn get_pages_by_note(&self, note_id: &str) -> (res: Result<Vec<LocalPage>, DbError>)
        ensures
            match res {
                Ok(r) => r@.to_multiset() == self.pages_view().filter(
                    (|x: LocalPage| row_child(x, note_id@)),
                ).to_multiset() && recency_ordered(r@),
                Err(_) => false,
            },
    {
        let key = String::from_str(note_id);
        Ok(self.pages.list_by_parent(&key))
    }

    /// The page with this id, tombstoned or not.
    pub fn get_page_by_id(&self, id: &str) -> (res: Result<Option<LocalPage>, DbError>)
        ensures
            match res {
                Ok(r) => r == spec_find(self.pages_view(), id@),
                Err(_) => false,
            },
    {
        let key = String::from_str(id);
        Ok(self.pages.get(&key))
    }

    /// Inserts a new page as given.  Fails with `Conflict` if the id is
    /// taken.
    pub fn insert_page(&mut self, page: &LocalPage) -> (res: Result<(), DbError>)
        requires
            old(self).wf(),
        ensures
            final(self).wf(),
            same_but_pages(*final(self), *old(self)),
            match res {
                Ok(()) => !conflicts_with(old(self).pages_view(), *page) && final(self).pages_view()
                    == old(self).pages_view().push(*page),
                Err(e) => final(self).pages_view() == old(self).pages_view() && e
                    == DbError::Conflict && conflicts_with(old(self).pages_view(), *page),
            },
    {
        self.pages.create(page.dup())
    }

    /// Applies a partial update to the page with this id, returning the
    /// status to `Pending` and refreshing the local-update stamp to
    /// `now`.  Returns `Ok(None)` if the id does not exist.
    pub fn update_page(&mut self, id: &str, updates: PageUpdate, now: u64) -> (res: Result<
        Option<LocalPage>,
        DbError,
    >)
        requires
            old(self).wf(),
        ensures
            final(self).wf(),
            same_but_pages(*final(self), *old(self)),
            match res {
                Ok(r_opt) => match r_opt {
                    None => !has_id(old(self).pages_view(), id@) && final(self).pages_view()
                        == old(self).pages_view(),
                    Some(x) => has_id(old(self).pages_view(), id@) && spec_find(
                        old(self).pages_view(),
                        id@,
                    ) is Some && x == spec_patched(
                        spec_find(old(self).pages_view(), id@).unwrap(),
                        updates,
                        now,
                    ) && final(self).pages_view() == spec_update_rows(
                        old(self).pages_view(),
                        id@,
                        updates,
                        now,
                    ),
                },
                Err(_) => false,
            },
    {
        let key = String::from_str(id);
        // A page carries no field constraints, so the update cannot fail
        // validation.
        self.pages.update(&key, &updates, now)
    }

    /// Soft delete: tombstones the page, refreshing its local-update
    /// stamp to `now`.  Returns whether a page with this id existed.
    pub fn delete_page(&mut self, id: &str, now: u64) -> (res: Result<bool, DbError>)
        requires
            old(self).wf(),
        ensures
            final(self).wf(),
            same_but_pages(*final(self), *old(self)),
            match res {
                Ok(r) => r == has_id(old(self).pages_view(), id@) && final(self).pages_view()
                    == spec_soft_delete(old(self).pages_view(), id@, now),
                Err(_) => false,
            },
    {
        let key = String::from_str(id);
        Ok(self.pages.soft_delete(&key, now))
    }

    /// The outbound queue: all pages whose status is `Pending`, in
    /// storage order.
    pub fn get_pending_sync_pages(&self) -> (res: Result<Vec<LocalPage>, DbError>)
        ensures
            match res {
                Ok(r) => r@ == self.pages_view().filter(
                    (|x: LocalPage| x.smeta().sync_status == SyncStatus::Pending),
                ),
                Err(_) => false,
            },
    {
        Ok(self.pages.list_with_status(SyncStatus::Pending))
    }

    /// Sync acknowledgement for a page; see `mark_note_synced`.
    pub fn mark_page_synced(&mut self, id: &str, server_updated_at: u64, now: u64) -> (res: Result<
        (),
        DbError,
    >)
        requires
            old(self).wf(),
        ensures
            final(self).wf(),
            same_but_pages(*final(self), *old(self)),
            final(self).pages_view() == spec_mark_synced(
                old(self).pages_view(),
                id@,
                server_updated_at,
                now,
            ),
            match res {
                Ok(()) => has_id(old(self).pages_view(), id@),
                Err(e) => e == DbError::NotFound && !has_id(old(self).pages_view(), id@),
            },
    {
        let key = String::from_str(id);
        self.pages.mark_synced(&key, server_updated_at, now)
    }
}

// ---------------------------------------------------------------------------
// Decks
// ---------------------------------------------------------------------------

impl LocalDB {
    /// All non-tombstoned decks of `user_id`, most recently touched
    /// first, ties by id ascending.
    pub fn get_decks_by_user(&self, user_id: &str) -> (res: Result<Vec<LocalDeck>, DbError>)
        ensures
            match res {
                Ok(r) => r@.to_multiset() == self.decks_view().filter(
                    (|x: LocalDeck| row_listed(x, user_id@)),
                ).to_multiset() && recency_ordered(r@),
                Err(_) => false,
            },
    {
        let owner = String::from_str(user_id);
        Ok(self.decks.list_by_owner(&owner))
    }

    /// The deck with this id, tombstoned or not.
    pub fn get_deck_by_id(&self, id: &str) -> (res: Result<Option<LocalDeck>, DbError>)
        ensures
            match res {
                Ok(r) => r == spec_find(self.decks_view(), id@),
                Err(_) => false,
            },
    {
        let key = String::from_str(id);
        Ok(self.decks.get(&key))
    }

    /// Inserts a new deck as given.  Fails with `Conflict` if the id is
    /// taken.
    pub fn insert_deck(&mut self, deck: &LocalDeck) -> (res: Result<(), DbError>)
        requires
            old(self).wf(),
        ensures
            final(self).wf(),
            same_but_decks(*final(self), *old(self)),
            match res {
                Ok(()) => !conflicts_with(old(self).decks_view(), *deck) && final(self).decks_view()
                    == old(self).decks_view().push(*deck),
                Err(e) => final(self).decks_view() == old(self).decks_view() && e
                    == DbError::Conflict && conflicts_with(old(self).decks_view(), *deck),
            },
    {
        let res = self.decks.create(deck.dup());
        proof {
            assert forall|i: int| 0 <= i < self.cards_view().len() implies has_id(
                self.decks_view(),
                (#[trigger] self.cards_view()[i]).deck_id@,
            ) by {
                lemma_has_id_push(old(self).decks_view(), *deck, self.cards_view()[i].deck_id@);
            }
        }
        res
    }

    /// Applies a partial update to the deck with this id, returning the
    /// status to `Pending` and refreshing the local-update stamp to
    /// `now`.  Returns `Ok(None)` if the id does not exist.
    pub fn update_deck(&mut self, id: &str, updates: DeckUpdate, now: u64) -> (res: Result<
        Option<LocalDeck>,
        DbError,
    >)
        requires
            old(self).wf(),
        ensures
            final(self).wf(),
            same_but_decks(*final(self), *old(self)),
            match res {
                Ok(r_opt) => match r_opt {
                    None => !has_id(old(self).decks_view(), id@) && final(self).decks_view()
                        == old(self).decks_view(),
                    Some(x) => has_id(old(self).decks_view(), id@) && spec_find(
                        old(self).decks_view(),
                        id@,
                    ) is Some && x == spec_patched(
                        spec_find(old(self).decks_view(), id@).unwrap(),
                        updates,
                        now,
                    ) && final(self).decks_view() == spec_update_rows(
                        old(self).decks_view(),
                        id@,
                        updates,
                        now,
                    ),
                },
                Err(_) => false,
            },
    {
        let key = String::from_str(id);
        // A deck carries no field constraints, so the update cannot fail
        // validation.
        self.decks.update(&key, &updates, now)
    }

    /// Soft delete: tombstones the deck, refreshing its local-update
    /// stamp to `now`.  Its cards stay: a tombstone is not a physical
    /// deletion, so nothing cascades.  Returns whether a deck with this
    /// id existed.
    pub fn delete_deck(&mut self, id: &str, now: u64) -> (res: Result<bool, DbError>)
        requires
            old(self).wf(),
        ensures
            final(self).wf(),
            same_but_decks(*final(self), *old(self)),
            match res {
                Ok(r) => r == has_id(old(self).decks_view(), id@) && final(self).decks_view()
                    == spec_soft_delete(old(self).decks_view(), id@, now),
                Err(_) => false,
            },
    {
        let key = String::from_str(id);
        Ok(self.decks.soft_delete(&key, now))
    }

    /// Physical delete of a deck, cascading to its dependents: every card
    /// of the deck is removed, and with each removed card every learning
    /// log of that card.
    pub fn hard_delete_deck(&mut self, id: &str) -> (res: Result<(), DbError>)
        requires
            old(self).wf(),
        ensures
            final(self).wf(),
            final(self).notes_view() == old(self).notes_view(),
            final(self).pages_view() == old(self).pages_view(),
            final(self).study_goals_view() == old(self).study_goals_view(),
            final(self).milestones_view() == old(self).milestones_view(),
            final(self).user_settings_view() == old(self).user_settings_view(),
            match res {
                Ok(()) => final(self).decks_view() == spec_hard_delete(
                    old(self).decks_view(),
                    id@,
                ) && final(self).cards_view() == spec_prune_children(old(self).cards_view(), id@)
                    && final(self).learning_logs_view() == old(self).learning_logs_view().filter(
                    (|x: LocalLearningLog| !parent_among(
                        x,
                        spec_child_ids(old(self).cards_view(), id@),
                    )),
                ),
                Err(_) => false,
            },
    {
        let key = String::from_str(id);
        let ghost cards0 = self.cards_view();
        let ghost logs0 = self.learning_logs_view();
        let ghost decks0 = self.decks_view();
        let removed = self.cards.prune_children(&key);
        proof {
            assert(removed@.map_values(|x: LocalCard| x.sid()) == spec_child_ids(cards0, id@));
        }
        self.learning_logs.prune_children_among(&removed);
        self.decks.hard_delete(&key);
        proof {
            let cards1 = self.cards_view();
            let logs1 = self.learning_logs_view();
            let decks1 = self.decks_view();
            let ids = removed@.map_values(|p: LocalCard| p.sid());
            assert forall|i: int| 0 <= i < cards1.len() implies has_id(
                decks1,
                (#[trigger] cards1[i]).deck_id@,
            ) by {
                let j = choose|j: int| 0 <= j < cards0.len() && cards0[j] == cards1[i];
                assert(has_id(decks0, cards0[j].deck_id@));
                assert(cards1[i].sparent() == Some(cards1[i].deck_id@));
                assert(cards1[i].deck_id@ != id@);
            }
            assert forall|i: int| 0 <= i < logs1.len() implies has_id(
                cards1,
                (#[trigger] logs1[i]).card_id@,
            ) by {
                let l = logs1[i];
                let j = choose|j: int| 0 <= j < logs0.len() && logs0[j] == l;
                assert(has_id(cards0, l.card_id@));
                let m = choose|m: int| 0 <= m < cards0.len() && #[trigger] cards0[m].sid()
                    == l.card_id@;
                if cards0[m].sparent() == Some(id@) {
                    assert(removed@.contains(cards0[m]));
                    let t = choose|t: int| 0 <= t < removed@.len() && removed@[t] == cards0[m];
                    assert(ids[t] == l.card_id@);
                    assert(ids.contains(l.card_id@));
                    assert(l.sparent() == Some(l.card_id@));
                    assert(parent_among(l, ids));
                    assert(false);
                } else {
                    assert(cards1.contains(cards0[m]));
                    let u = choose|u: int| 0 <= u < cards1.len() && cards1[u] == cards0[m];
                    assert(cards1[u].sid() == l.card_id@);
                }
            }
        }
        Ok(())
    }

    /// The outbound queue: all decks whose status is `Pending`, in
    /// storage order.
    pub fn get_pending_sync_decks(&self) -> (res: Result<Vec<LocalDeck>, DbError>)
        ensures
            match res {
                Ok(r) => r@ == self.decks_view().filter(
                    (|x: LocalDeck| x.smeta().sync_status == SyncStatus::Pending),
                ),
                Err(_) => false,
            },
    {
        Ok(self.decks.list_with_status(SyncStatus::Pending))
    }
}

// ---------------------------------------------------------------------------
// Cards
// ---------------------------------------------------------------------------

impl LocalDB {
    /// All non-tombstoned cards of the deck `deck_id`, most recently
    /// touched first, ties by id ascending.
    pub fn get_cards_by_deck(&self, deck_id: &str) -> (res: Result<Vec<LocalCard>, DbError>)
        ensures
            match res {
                Ok(r) => r@.to_multiset() == self.cards_view().filter(
                    (|x: LocalCard| row_child(x, deck_id@)),
                ).to_multiset() && recency_ordered(r@),
                Err(_) => false,
            },
    {
        let key = String::from_str(deck_id);
        Ok(self.cards.list_by_parent(&key))
    }

    /// The card with this id, tombstoned or not.
    pub fn get_card_by_id(&self, id: &str) -> (res: Result<Option<LocalCard>, DbError>)
        ensures
            match res {
                Ok(r) => r == spec_find(self.cards_view(), id@),
                Err(_) => false,
            },
    {
        let key = String::from_str(id);
        Ok(self.cards.get(&key))
    }

    /// Inserts a new card as given.  Fails with `NotFound` if the deck it
    /// references does not exist, and with `Conflict` if the id is taken.
    pub fn insert_card(&mut self, card: &LocalCard) -> (res: Result<(), DbError>)
        requires
            old(self).wf(),
        ensures
            final(self).wf(),
            same_but_cards(*final(self), *old(self)),
            match res {
                Ok(()) => has_id(old(self).decks_view(), card.deck_id@) && !conflicts_with(
                    old(self).cards_view(),
                    *card,
                ) && final(self).cards_view() == old(self).cards_view().push(*card),
                Err(e) => final(self).cards_view() == old(self).cards_view() && ((e
                    == DbError::NotFound && !has_id(old(self).decks_view(), card.deck_id@)) || (e
                    == DbError::Conflict && has_id(old(self).decks_view(), card.deck_id@)
                    && conflicts_with(old(self).cards_view(), *card))),
            },
    {
        proof {
            crate::table::lemma_find_some(self.decks_view(), card.deck_id@);
        }
        if self.decks.get(&card.deck_id).is_none() {
            return Err(DbError::NotFound);
        }
        let res = self.cards.create(card.dup());
        proof {
            assert forall|i: int| 0 <= i < self.cards_view().len() implies has_id(
                self.decks_view(),
                (#[trigger] self.cards_view()[i]).deck_id@,
            ) by {
                if i < old(self).cards_view().len() {
                    assert(self.cards_view()[i] == old(self).cards_view()[i]);
                } else {
                    assert(self.cards_view()[i] == *card);
                }
            }
            assert forall|i: int| 0 <= i < self.learning_logs_view().len() implies has_id(
                self.cards_view(),
                (#[trigger] self.learning_logs_view()[i]).card_id@,
            ) by {
                lemma_has_id_push(
                    old(self).cards_view(),
                    *card,
                    self.learning_logs_view()[i].card_id@,
                );
            }
        }
        res
    }

    /// Applies a partial update to the card with this id, returning the
    /// status to `Pending` and refreshing the local-update stamp to
    /// `now`.  Returns `Ok(None)` if the id does not exist.
    pub fn update_card(&mut self, id: &str, updates: CardUpdate, now: u64) -> (res: Result<
        Option<LocalCard>,
        DbError,
    >)
        requires
            old(self).wf(),
        ensures
            final(self).wf(),
            same_but_cards(*final(self), *old(self)),
            match res {
                Ok(r_opt) => match r_opt {
                    None => !has_id(old(self).cards_view(), id@) && final(self).cards_view()
                        == old(self).cards_view(),
                    Some(x) => has_id(old(self).cards_view(), id@) && spec_find(
                        old(self).cards_view(),
                        id@,
                    ) is Some && x == spec_patched(
                        spec_find(old(self).cards_view(), id@).unwrap(),
                        updates,
                        now,
                    ) && final(self).cards_view() == spec_update_rows(
                        old(self).cards_view(),
                        id@,
                        updates,
                        now,
                    ),
                },
                Err(_) => false,
            },
    {
        let key = String::from_str(id);
        // A card carries no field constraints, so the update cannot fail
        // validation.
        self.cards.update(&key, &updates, now)
    }

    /// Soft delete: tombstones the card, refreshing its local-update
    /// stamp to `now`.  Its learning logs stay: a tombstone is not a
    /// physical deletion, so nothing cascades.  Returns whether a card
    /// with this id existed.
    pub fn delete_card(&mut self, id: &str, now: u64) -> (res: Result<bool, DbError>)
        requires
            old(self).wf(),
        ensures
            final(self).wf(),
            same_but_cards(*final(self), *old(self)),
            match res {
                Ok(r) => r == has_id(old(self).cards_view(), id@) && final(self).cards_view()
                    == spec_soft_delete(old(self).cards_view(), id@, now),
                Err(_) => false,
            },
    {
        let key = String::from_str(id);
        Ok(self.cards.soft_delete(&key, now))
    }

    /// Physical delete of a card, cascading to its dependents: every
    /// learning log of the card is removed with it.
    pub fn hard_delete_card(&mut self, id: &str) -> (res: Result<(), DbError>)
        requires
            old(self).wf(),
        ensures
            final(self).wf(),
            final(self).notes_view() == old(self).notes_view(),
            final(self).pages_view() == old(self).pages_view(),
            final(self).decks_view() == old(self).decks_view(),
            final(self).study_goals_view() == old(self).study_goals_view(),
            final(self).milestones_view() == old(self).milestones_view(),
            final(self).user_settings_view() == old(self).user_settings_view(),
            match res {
                Ok(()) => final(self).cards_view() == spec_hard_delete(
                    old(self).cards_view(),
                    id@,
                ) && final(self).learning_logs_view() == spec_prune_children(
                    old(self).learning_logs_view(),
                    id@,
                ),
                Err(_) => false,
            },
    {
        let key = String::from_str(id);
        let ghost cards0 = self.cards_view();
        let ghost logs0 = self.learning_logs_view();
        let _removed = self.learning_logs.prune_children(&key);
        self.cards.hard_delete(&key);
        proof {
            let cards1 = self.cards_view();
            let logs1 = self.learning_logs_view();
            assert forall|i: int| 0 <= i < cards1.len() implies has_id(
                self.decks_view(),
                (#[trigger] cards1[i]).deck_id@,
            ) by {
                let j = choose|j: int| 0 <= j < cards0.len() && cards0[j] == cards1[i];
                assert(has_id(cards0, cards1[i].sid()));
            }
            assert forall|i: int| 0 <= i < logs1.len() implies has_id(
                cards1,
                (#[trigger] logs1[i]).card_id@,
            ) by {
                let l = logs1[i];
                let j = choose|j: int| 0 <= j < logs0.len() && logs0[j] == l;
                assert(has_id(cards0, l.card_id@));
                assert(l.sparent() == Some(l.card_id@));
                assert(l.card_id@ != id@);
            }
        }
        Ok(())
    }

    /// All of `user_id`'s cards that are not tombstoned and are due for
    /// review at or before `as_of`, earliest due first, ties by id
    /// ascending.
    pub fn get_due_cards(&self, user_id: &str, as_of: u64) -> (res: Result<Vec<LocalCard>, DbError>)
        ensures
            match res {
                Ok(r) => r@.to_multiset() == self.cards_view().filter(
                    (|c: LocalCard| card_due(c, user_id@, as_of)),
                ).to_multiset() && due_ordered(r@),
                Err(_) => false,
            },
    {
        let owner = String::from_str(user_id);
        Ok(list_due(&self.cards, &owner, as_of))
    }

    /// The outbound queue: all cards whose status is `Pending`, in
    /// storage order.
    pub fn get_pending_sync_cards(&self) -> (res: Result<Vec<LocalCard>, DbError>)
        ensures
            match res {
                Ok(r) => r@ == self.cards_view().filter(
                    (|x: LocalCard| x.smeta().sync_status == SyncStatus::Pending),
                ),
                Err(_) => false,
            },
    {
        Ok(self.cards.list_with_status(SyncStatus::Pending))
    }
}

// ---------------------------------------------------------------------------
// Study goals
// ---------------------------------------------------------------------------

impl LocalDB {
    /// All non-tombstoned study goals of `user_id`, most recently touched
    /// first, ties by id ascending.
    pub fn get_study_goals_by_user(&self, user_id: &str) -> (res: Result<
        Vec<LocalStudyGoal>,
        DbError,
    >)
        ensures
            match res {
                Ok(r) => r@.to_multiset() == self.study_goals_view().filter(
                    (|x: LocalStudyGoal| row_listed(x, user_id@)),
                ).to_multiset() && recency_ordered(r@),
                Err(_) => false,
            },
    {
        let owner = String::from_str(user_id);
        Ok(self.study_goals.list_by_owner(&owner))
    }

    /// The study goal with this id, tombstoned or not.
    pub fn get_study_goal_by_id(&self, id: &str) -> (res: Result<Option<LocalStudyGoal>, DbError>)
        ensures
            match res {
                Ok(r) => r == spec_find(self.study_goals_view(), id@),
                Err(_) => false,
            },
    {
        let key = String::from_str(id);
        Ok(self.study_goals.get(&key))
    }

    /// Inserts a new study goal as given.  Fails with `Conflict` if the
    /// id is taken, and with `ValidationError` on a progress rate outside
    /// the percentage range or an invalid status label.
    pub fn insert_study_goal(&mut self, goal: &LocalStudyGoal) -> (res: Result<(), DbError>)
        requires
            old(self).wf(),
        ensures
            final(self).wf(),
            same_but_study_goals(*final(self), *old(self)),
            match res {
                Ok(()) => goal.svalid() && !conflicts_with(old(self).study_goals_view(), *goal)
                    && final(self).study_goals_view() == old(self).study_goals_view().push(*goal),
                Err(e) => final(self).study_goals_view() == old(self).study_goals_view() && (e
                    == DbError::ValidationError || e == DbError::Conflict) && (e
                    == DbError::ValidationError <==> !goal.svalid()) && (e == DbError::Conflict
                    ==> conflicts_with(old(self).study_goals_view(), *goal)),
            },
    {
        let res = self.study_goals.create(goal.dup());
        proof {
            assert forall|i: int| 0 <= i < self.milestones_view().len() implies has_id(
                self.study_goals_view(),
                (#[trigger] self.milestones_view()[i]).goal_id@,
            ) by {
                lemma_has_id_push(
                    old(self).study_goals_view(),
                    *goal,
                    self.milestones_view()[i].goal_id@,
                );
            }
        }
        res
    }

    /// Soft delete: tombstones the study goal, refreshing its
    /// local-update stamp to `now`.  Its milestones stay: a tombstone is
    /// not a physical deletion, so nothing cascades.  Returns whether a
    /// goal with this id existed.
    pub fn delete_study_goal(&mut self, id: &str, now: u64) -> (res: Result<bool, DbError>)
        requires
            old(self).wf(),
        ensures
            final(self).wf(),
            same_but_study_goals(*final(self), *old(self)),
            match res {
                Ok(r) => r == has_id(old(self).study_goals_view(), id@) && final(self).study_goals_view() == spec_soft_delete(old(self).study_goals_view(), id@, now),
                Err(_) => false,
            },
    {
        let key = String::from_str(id);
        Ok(self.study_goals.soft_delete(&key, now))
    }

    /// Physical delete of a study goal, cascading to its dependents:
    /// every milestone of the goal is removed with it.
    pub fn hard_delete_study_goal(&mut self, id: &str) -> (res: Result<(), DbError>)
        requires
            old(self).wf(),
        ensures
            final(self).wf(),
            final(self).notes_view() == old(self).notes_view(),
            final(self).pages_view() == old(self).pages_view(),
            final(self).decks_view() == old(self).decks_view(),
            final(self).cards_view() == old(self).cards_view(),
            final(self).learning_logs_view() == old(self).learning_logs_view(),
            final(self).user_settings_view() == old(self).user_settings_view(),
            match res {
                Ok(()) => final(self).study_goals_view() == spec_hard_delete(
                    old(self).study_goals_view(),
                    id@,
                ) && final(self).milestones_view() == spec_prune_children(
                    old(self).milestones_view(),
                    id@,
                ),
                Err(_) => false,
            },
    {
        let key = String::from_str(id);
        let ghost goals0 = self.study_goals_view();
        let ghost stones0 = self.milestones_view();
        let _removed = self.milestones.prune_children(&key);
        self.study_goals.hard_delete(&key);
        proof {
            let stones1 = self.milestones_view();
            assert forall|i: int| 0 <= i < stones1.len() implies has_id(
                self.study_goals_view(),
                (#[trigger] stones1[i]).goal_id@,
            ) by {
                let m = stones1[i];
                let j = choose|j: int| 0 <= j < stones0.len() && stones0[j] == m;
                assert(has_id(goals0, m.goal_id@));
                assert(m.sparent() == Some(m.goal_id@));
                assert(m.goal_id@ != id@);
            }
        }
        Ok(())
    }

    /// The outbound queue: all study goals whose status is `Pending`, in
    /// storage order.
    pub fn get_pending_sync_study_goals(&self) -> (res: Result<Vec<LocalStudyGoal>, DbError>)
        ensures
            match res {
                Ok(r) => r@ == self.study_goals_view().filter(
                    (|x: LocalStudyGoal| x.smeta().sync_status == SyncStatus::Pending),
                ),
                Err(_) => false,
            },
    {
        Ok(self.study_goals.list_with_status(SyncStatus::Pending))
    }
}

// ---------------------------------------------------------------------------
// Learning logs
// ---------------------------------------------------------------------------

impl LocalDB {
    /// All non-tombstoned learning logs of `user_id`, most recently
    /// touched first, ties by id ascending.
    pub fn get_learning_logs_by_user(&self, user_id: &str) -> (res: Result<
        Vec<LocalLearningLog>,
        DbError,
    >)
        ensures
            match res {
                Ok(r) => r@.to_multiset() == self.learning_logs_view().filter(
                    (|x: LocalLearningLog| row_listed(x, user_id@)),
                ).to_multiset() && recency_ordered(r@),
                Err(_) => false,
            },
    {
        let owner = String::from_str(user_id);
        Ok(self.learning_logs.list_by_owner(&owner))
    }

    /// All non-tombstoned learning logs of the card `card_id`, most
    /// recently touched first, ties by id ascending.
    pub fn get_learning_logs_by_card(&self, card_id: &str) -> (res: Result<
        Vec<LocalLearningLog>,
        DbError,
    >)
        ensures
            match res {
                Ok(r) => r@.to_multiset() == self.learning_logs_view().filter(
                    (|x: LocalLearningLog| row_child(x, card_id@)),
                ).to_multiset() && recency_ordered(r@),
                Err(_) => false,
            },
    {
        let key = String::from_str(card_id);
        Ok(self.learning_logs.list_by_parent(&key))
    }

    /// Inserts a new learning log as given.  Fails with `NotFound` if the
    /// card it references does not exist, with `Conflict` if the id is
    /// taken, and with `ValidationError` on an invalid practice mode or a
    /// quality outside its range.
    pub fn insert_learning_log(&mut self, log: &LocalLearningLog) -> (res: Result<(), DbError>)
        requires
            old(self).wf(),
        ensures
            final(self).wf(),
            same_but_learning_logs(*final(self), *old(self)),
            match res {
                Ok(()) => has_id(old(self).cards_view(), log.card_id@) && log.svalid()
                    && !conflicts_with(old(self).learning_logs_view(), *log) && final(self).learning_logs_view() == old(self).learning_logs_view().push(*log),
                Err(e) => final(self).learning_logs_view() == old(self).learning_logs_view() && ((e
                    == DbError::NotFound && !has_id(old(self).cards_view(), log.card_id@)) || (e
                    != DbError::NotFound && has_id(old(self).cards_view(), log.card_id@) && (e
                    == DbError::ValidationError || e == DbError::Conflict) && (e
                    == DbError::ValidationError <==> !log.svalid()) && (e == DbError::Conflict
                    ==> conflicts_with(old(self).learning_logs_view(), *log)))),
            },
    {
        proof {
            crate::table::lemma_find_some(self.cards_view(), log.card_id@);
        }
        if self.cards.get(&log.card_id).is_none() {
            return Err(DbError::NotFound);
        }
        let res = self.learning_logs.create(log.dup());
        proof {
            assert forall|i: int| 0 <= i < self.learning_logs_view().len() implies has_id(
                self.cards_view(),
                (#[trigger] self.learning_logs_view()[i]).card_id@,
            ) by {
                if i < old(self).learning_logs_view().len() {
                    assert(self.learning_logs_view()[i] == old(self).learning_logs_view()[i]);
                } else {
                    assert(self.learning_logs_view()[i] == *log);
                }
            }
        }
        res
    }

    /// The outbound queue: all learning logs whose status is `Pending`,
    /// in storage order.
    pub fn get_pending_sync_learning_logs(&self) -> (res: Result<Vec<LocalLearningLog>, DbError>)
        ensures
            match res {
                Ok(r) => r@ == self.learning_logs_view().filter(
                    (|x: LocalLearningLog| x.smeta().sync_status == SyncStatus::Pending),
                ),
                Err(_) => false,
            },
    {
        Ok(self.learning_logs.list_with_status(SyncStatus::Pending))
    }
}

// ---------------------------------------------------------------------------
// Milestones
// ---------------------------------------------------------------------------

impl LocalDB {
    /// All non-tombstoned milestones of the study goal `goal_id`, most
    /// recently touched first, ties by id ascending.
    pub fn get_milestones_by_goal(&self, goal_id: &str) -> (res: Result<
        Vec<LocalMilestone>,
        DbError,
    >)
        ensures
            match res {
                Ok(r) => r@.to_multiset() == self.milestones_view().filter(
                    (|x: LocalMilestone| row_listed(x, goal_id@)),
                ).to_multiset() && recency_ordered(r@),
                Err(_) => false,
            },
    {
        let owner = String::from_str(goal_id);
        Ok(self.milestones.list_by_owner(&owner))
    }

    /// The milestone with this id, tombstoned or not.
    pub fn get_milestone_by_id(&self, id: &str) -> (res: Result<Option<LocalMilestone>, DbError>)
        ensures
            match res {
                Ok(r) => r == spec_find(self.milestones_view(), id@),
                Err(_) => false,
            },
    {
        let key = String::from_str(id);
        Ok(self.milestones.get(&key))
    }

    /// Inserts a new milestone as given.  Fails with `NotFound` if the
    /// study goal it references does not exist, and with `Conflict` if
    /// the id is taken.
    pub fn insert_milestone(&mut self, milestone: &LocalMilestone) -> (res: Result<(), DbError>)
        requires
            old(self).wf(),
        ensures
            final(self).wf(),
            same_but_milestones(*final(self), *old(self)),
            match res {
                Ok(()) => has_id(old(self).study_goals_view(), milestone.goal_id@)
                    && !conflicts_with(old(self).milestones_view(), *milestone) && final(self).milestones_view() == old(self).milestones_view().push(*milestone),
                Err(e) => final(self).milestones_view() == old(self).milestones_view() && ((e
                    == DbError::NotFound && !has_id(old(self).study_goals_view(), milestone.goal_id@))
                    || (e == DbError::Conflict && has_id(
                    old(self).study_goals_view(),
                    milestone.goal_id@,
                ) && conflicts_with(old(self).milestones_view(), *milestone))),
            },
    {
        proof {
            crate::table::lemma_find_some(self.study_goals_view(), milestone.goal_id@);
        }
        if self.study_goals.get(&milestone.goal_id).is_none() {
            return Err(DbError::NotFound);
        }
        let res = self.milestones.create(milestone.dup());
        proof {
            assert forall|i: int| 0 <= i < self.milestones_view().len() implies has_id(
                self.study_goals_view(),
                (#[trigger] self.milestones_view()[i]).goal_id@,
            ) by {
                if i < old(self).milestones_view().len() {
                    assert(self.milestones_view()[i] == old(self).milestones_view()[i]);
                } else {
                    assert(self.milestones_view()[i] == *milestone);
                }
            }
        }
        res
    }

    /// Soft delete: tombstones the milestone, refreshing its local-update
    /// stamp to `now`.  Returns whether a milestone with this id existed.
    pub fn delete_milestone(&mut self, id: &str, now: u64) -> (res: Result<bool, DbError>)
        requires
            old(self).wf(),
        ensures
            final(self).wf(),
            same_but_milestones(*final(self), *old(self)),
            match res {
                Ok(r) => r == has_id(old(self).milestones_view(), id@) && final(self).milestones_view() == spec_soft_delete(old(self).milestones_view(), id@, now),
                Err(_) => false,
            },
    {
        let key = String::from_str(id);
        Ok(self.milestones.soft_delete(&key, now))
    }

    /// The outbound queue: all milestones whose status is `Pending`, in
    /// storage order.
    pub fn get_pending_sync_milestones(&self) -> (res: Result<Vec<LocalMilestone>, DbError>)
        ensures
            match res {
                Ok(r) => r@ == self.milestones_view().filter(
                    (|x: LocalMilestone| x.smeta().sync_status == SyncStatus::Pending),
                ),
                Err(_) => false,
            },
    {
        Ok(self.milestones.list_with_status(SyncStatus::Pending))
    }
}

// ---------------------------------------------------------------------------
// User settings
// ---------------------------------------------------------------------------

impl LocalDB {
    /// The settings row of `user_id`, regardless of sync status; at most
    /// one exists per user.
    pub fn get_user_settings(&self, user_id: &str) -> (res: Result<
        Option<LocalUserSettings>,
        DbError,
    >)
        ensures
            match res {
                Ok(r) => r == spec_find_owned(self.user_settings_view(), user_id@),
                Err(_) => false,
            },
    {
        let owner = String::from_str(user_id);
        Ok(self.user_settings.get_owned(&owner))
    }

    /// Upsert with replace semantics: any stored settings row colliding
    /// with the given one (same id, or same user) leaves, and the given
    /// row is stored as is — its sync status included.  Fails with
    /// `ValidationError` on an invalid theme or mode label.
    pub fn upsert_user_settings(&mut self, settings: &LocalUserSettings) -> (res: Result<
        (),
        DbError,
    >)
        requires
            old(self).wf(),
        ensures
            final(self).wf(),
            same_but_user_settings(*final(self), *old(self)),
            match res {
                Ok(()) => settings.svalid() && final(self).user_settings_view()
                    == spec_replace_insert(old(self).user_settings_view(), *settings),
                Err(e) => e == DbError::ValidationError && !settings.svalid() && final(self).user_settings_view() == old(self).user_settings_view(),
            },
    {
        self.user_settings.replace_insert(settings.dup())
    }

    /// The outbound queue: all settings rows whose status is `Pending`,
    /// in storage order.
    pub fn get_pending_sync_user_settings(&self) -> (res: Result<Vec<LocalUserSettings>, DbError>)
        ensures
            match res {
                Ok(r) => r@ == self.user_settings_view().filter(
                    (|x: LocalUserSettings| x.smeta().sync_status == SyncStatus::Pending),
                ),
                Err(_) => false,
            },
    {
        Ok(self.user_settings.list_with_status(SyncStatus::Pending))
    }
}

} // verus!
