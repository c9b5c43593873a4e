//! The schema registry: the relational shape, constraints and indexes of
//! every entity kind, and the store version they together define.
//!
//! Every statement is guarded with create-if-not-present semantics, so a
//! partially migrated store may simply be migrated again.

use vstd::prelude::*;

verus! {

/// The store version that this registry's schema defines.  It never
/// decreases across releases.
pub const DB_VERSION: u64 = 1;

/// The metadata relation holding the store version.
pub const METADATA_TABLE: &'static str = r#"
CREATE TABLE IF NOT EXISTS _metadata (
    key TEXT PRIMARY KEY NOT NULL,
    value TEXT NOT NULL
);
"#;

/// The notes relation: unique per owner and slug.
pub const NOTES_TABLE: &'static str = r#"
CREATE TABLE IF NOT EXISTS notes (
    id TEXT PRIMARY KEY NOT NULL,
    owner_id TEXT NOT NULL,
    slug TEXT NOT NULL,
    title TEXT NOT NULL,
    description TEXT,
    visibility TEXT NOT NULL DEFAULT 'private' CHECK (visibility IN ('public', 'unlisted', 'invite', 'private')),
    created_at INTEGER NOT NULL,
    updated_at INTEGER NOT NULL,
    is_trashed INTEGER NOT NULL DEFAULT 0,
    trashed_at INTEGER,

    -- sync metadata
    sync_status TEXT NOT NULL DEFAULT 'pending' CHECK (sync_status IN ('pending', 'synced', 'conflict', 'deleted')),
    synced_at INTEGER,
    local_updated_at INTEGER NOT NULL,
    server_updated_at INTEGER
);

CREATE INDEX IF NOT EXISTS idx_notes_owner ON notes(owner_id);
CREATE INDEX IF NOT EXISTS idx_notes_sync_status ON notes(sync_status);
CREATE INDEX IF NOT EXISTS idx_notes_updated ON notes(local_updated_at);
CREATE UNIQUE INDEX IF NOT EXISTS idx_notes_owner_slug ON notes(owner_id, slug);
"#;

/// The pages relation: optionally attached to a note.
pub const PAGES_TABLE: &'static str = r#"
CREATE TABLE IF NOT EXISTS pages (
    id TEXT PRIMARY KEY NOT NULL,
    user_id TEXT NOT NULL,
    note_id TEXT,
    title TEXT NOT NULL,
    thumbnail_url TEXT,
    is_public INTEGER NOT NULL DEFAULT 0,
    scrapbox_page_id TEXT,
    scrapbox_page_list_synced_at INTEGER,
    scrapbox_page_content_synced_at INTEGER,
    created_at INTEGER NOT NULL,
    updated_at INTEGER NOT NULL,

    -- sync metadata
    sync_status TEXT NOT NULL DEFAULT 'pending' CHECK (sync_status IN ('pending', 'synced', 'conflict', 'deleted')),
    synced_at INTEGER,
    local_updated_at INTEGER NOT NULL,
    server_updated_at INTEGER
);

CREATE INDEX IF NOT EXISTS idx_pages_user ON pages(user_id);
CREATE INDEX IF NOT EXISTS idx_pages_note ON pages(note_id);
CREATE INDEX IF NOT EXISTS idx_pages_sync_status ON pages(sync_status);
CREATE INDEX IF NOT EXISTS idx_pages_updated ON pages(local_updated_at);
"#;

/// The decks relation.
pub const DECKS_TABLE: &'static str = r#"
CREATE TABLE IF NOT EXISTS decks (
    id TEXT PRIMARY KEY NOT NULL,
    user_id TEXT NOT NULL,
    title TEXT NOT NULL,
    description TEXT,
    is_public INTEGER NOT NULL DEFAULT 0,
    created_at INTEGER NOT NULL,
    updated_at INTEGER NOT NULL,

    -- sync metadata
    sync_status TEXT NOT NULL DEFAULT 'pending' CHECK (sync_status IN ('pending', 'synced', 'conflict', 'deleted')),
    synced_at INTEGER,
    local_updated_at INTEGER NOT NULL,
    server_updated_at INTEGER
);

CREATE INDEX IF NOT EXISTS idx_decks_user ON decks(user_id);
CREATE INDEX IF NOT EXISTS idx_decks_sync_status ON decks(sync_status);
CREATE INDEX IF NOT EXISTS idx_decks_updated ON decks(local_updated_at);
"#;

/// The cards relation: each card belongs to one deck, removed with it.
pub const CARDS_TABLE: &'static str = r#"
CREATE TABLE IF NOT EXISTS cards (
    id TEXT PRIMARY KEY NOT NULL,
    deck_id TEXT NOT NULL,
    user_id TEXT NOT NULL,
    front_content TEXT NOT NULL,
    back_content TEXT NOT NULL,
    source_audio_url TEXT,
    source_ocr_image_url TEXT,
    created_at INTEGER NOT NULL,
    updated_at INTEGER NOT NULL,

    -- spaced-repetition bookkeeping
    ease_factor TEXT NOT NULL DEFAULT '2.5',
    repetition_count INTEGER NOT NULL DEFAULT 0,
    review_interval INTEGER NOT NULL DEFAULT 0,
    next_review_at INTEGER,
    stability TEXT NOT NULL DEFAULT '0.0',
    difficulty TEXT NOT NULL DEFAULT '1.0',
    last_reviewed_at INTEGER,

    -- sync metadata
    sync_status TEXT NOT NULL DEFAULT 'pending' CHECK (sync_status IN ('pending', 'synced', 'conflict', 'deleted')),
    synced_at INTEGER,
    local_updated_at INTEGER NOT NULL,
    server_updated_at INTEGER,

    FOREIGN KEY (deck_id) REFERENCES decks(id) ON DELETE CASCADE
);

CREATE INDEX IF NOT EXISTS idx_cards_deck ON cards(deck_id);
CREATE INDEX IF NOT EXISTS idx_cards_user ON cards(user_id);
CREATE INDEX IF NOT EXISTS idx_cards_sync_status ON cards(sync_status);
CREATE INDEX IF NOT EXISTS idx_cards_next_review ON cards(next_review_at);
CREATE INDEX IF NOT EXISTS idx_cards_updated ON cards(local_updated_at);
"#;

/// The study-goals relation.
pub const STUDY_GOALS_TABLE: &'static str = r#"
CREATE TABLE IF NOT EXISTS study_goals (
    id TEXT PRIMARY KEY NOT NULL,
    user_id TEXT NOT NULL,
    title TEXT NOT NULL,
    description TEXT,
    created_at INTEGER NOT NULL,
    updated_at INTEGER NOT NULL,
    deadline INTEGER,
    progress_rate INTEGER NOT NULL DEFAULT 0 CHECK (progress_rate BETWEEN 0 AND 100),
    status TEXT NOT NULL DEFAULT 'not_started' CHECK (status IN ('not_started', 'in_progress', 'completed')),
    completed_at INTEGER,

    -- sync metadata
    sync_status TEXT NOT NULL DEFAULT 'pending' CHECK (sync_status IN ('pending', 'synced', 'conflict', 'deleted')),
    synced_at INTEGER,
    local_updated_at INTEGER NOT NULL,
    server_updated_at INTEGER
);

CREATE INDEX IF NOT EXISTS idx_study_goals_user ON study_goals(user_id);
CREATE INDEX IF NOT EXISTS idx_study_goals_sync_status ON study_goals(sync_status);
CREATE INDEX IF NOT EXISTS idx_study_goals_status ON study_goals(status);
"#;

/// The learning-logs relation: each log belongs to one card, removed with
/// it.
pub const LEARNING_LOGS_TABLE: &'static str = r#"
CREATE TABLE IF NOT EXISTS learning_logs (
    id TEXT PRIMARY KEY NOT NULL,
    user_id TEXT NOT NULL,
    card_id TEXT NOT NULL,
    question_id TEXT,
    answered_at INTEGER NOT NULL,
    is_correct INTEGER NOT NULL,
    user_answer TEXT,
    practice_mode TEXT NOT NULL CHECK (practice_mode IN ('flashcard', 'quiz', 'typing', 'listening', 'reading')),
    review_interval INTEGER,
    next_review_at INTEGER,
    quality INTEGER NOT NULL DEFAULT 0 CHECK (quality BETWEEN 0 AND 5),
    response_time INTEGER NOT NULL DEFAULT 0,
    effort_time INTEGER NOT NULL DEFAULT 0,
    attempt_count INTEGER NOT NULL DEFAULT 1,

    -- sync metadata
    sync_status TEXT NOT NULL DEFAULT 'pending' CHECK (sync_status IN ('pending', 'synced', 'conflict', 'deleted')),
    synced_at INTEGER,
    local_updated_at INTEGER NOT NULL,
    server_updated_at INTEGER,

    FOREIGN KEY (card_id) REFERENCES cards(id) ON DELETE CASCADE
);

CREATE INDEX IF NOT EXISTS idx_learning_logs_user ON learning_logs(user_id);
CREATE INDEX IF NOT EXISTS idx_learning_logs_card ON learning_logs(card_id);
CREATE INDEX IF NOT EXISTS idx_learning_logs_sync_status ON learning_logs(sync_status);
CREATE INDEX IF NOT EXISTS idx_learning_logs_answered ON learning_logs(answered_at);
"#;

/// The milestones relation: each milestone belongs to one study goal,
/// removed with it.
pub const MILESTONES_TABLE: &'static str = r#"
CREATE TABLE IF NOT EXISTS milestones (
    id TEXT PRIMARY KEY NOT NULL,
    goal_id TEXT NOT NULL,
    title TEXT NOT NULL,
    description TEXT,
    due_date INTEGER,
    is_completed INTEGER NOT NULL DEFAULT 0,
    created_at INTEGER NOT NULL,
    updated_at INTEGER NOT NULL,

    -- sync metadata
    sync_status TEXT NOT NULL DEFAULT 'pending' CHECK (sync_status IN ('pending', 'synced', 'conflict', 'deleted')),
    synced_at INTEGER,
    local_updated_at INTEGER NOT NULL,
    server_updated_at INTEGER,

    FOREIGN KEY (goal_id) REFERENCES study_goals(id) ON DELETE CASCADE
);

CREATE INDEX IF NOT EXISTS idx_milestones_goal ON milestones(goal_id);
CREATE INDEX IF NOT EXISTS idx_milestones_sync_status ON milestones(sync_status);
"#;

/// The user-settings relation: one row per user.
pub const USER_SETTINGS_TABLE: &'static str = r#"
CREATE TABLE IF NOT EXISTS user_settings (
    id TEXT PRIMARY KEY NOT NULL,
    user_id TEXT NOT NULL UNIQUE,
    theme TEXT NOT NULL DEFAULT 'ocean' CHECK (theme IN ('ocean', 'forest', 'sunset', 'night-sky', 'desert')),
    mode TEXT NOT NULL DEFAULT 'light' CHECK (mode IN ('light', 'dark')),
    locale TEXT NOT NULL DEFAULT 'en',
    timezone TEXT NOT NULL DEFAULT 'UTC',
    notifications TEXT NOT NULL DEFAULT '{}',
    items_per_page INTEGER NOT NULL DEFAULT 20,
    play_help_video_audio INTEGER NOT NULL DEFAULT 0,
    cosense_sync_enabled INTEGER NOT NULL DEFAULT 0,
    notion_sync_enabled INTEGER NOT NULL DEFAULT 0,
    gyazo_sync_enabled INTEGER NOT NULL DEFAULT 0,
    quizlet_sync_enabled INTEGER NOT NULL DEFAULT 0,
    created_at INTEGER NOT NULL,
    updated_at INTEGER NOT NULL,

    -- sync metadata
    sync_status TEXT NOT NULL DEFAULT 'pending' CHECK (sync_status IN ('pending', 'synced', 'conflict', 'deleted')),
    synced_at INTEGER,
    local_updated_at INTEGER NOT NULL,
    server_updated_at INTEGER
);

CREATE INDEX IF NOT EXISTS idx_user_settings_user ON user_settings(user_id);
CREATE INDEX IF NOT EXISTS idx_user_settings_sync_status ON user_settings(sync_status);
"#;

/// Every relation's schema, in the fixed declaration order in which the
/// migration runner applies them: the metadata relation first, then each
/// entity relation, parents before their dependents.
pub fn get_all_schemas() -> (r: Vec<&'static str>)
    ensures
        r@.len() == 9,
        r@[0]@ == METADATA_TABLE@,
        r@[1]@ == NOTES_TABLE@,
        r@[2]@ == PAGES_TABLE@,
        r@[3]@ == DECKS_TABLE@,
        r@[4]@ == CARDS_TABLE@,
        r@[5]@ == STUDY_GOALS_TABLE@,
        r@[6]@ == LEARNING_LOGS_TABLE@,
        r@[7]@ == MILESTONES_TABLE@,
        r@[8]@ == USER_SETTINGS_TABLE@,
{
    let mut r: Vec<&'static str> = Vec::new();
    r.push(METADATA_TABLE);
    r.push(NOTES_TABLE);
    r.push(PAGES_TABLE);
    r.push(DECKS_TABLE);
    r.push(CARDS_TABLE);
    r.push(STUDY_GOALS_TABLE);
    r.push(LEARNING_LOGS_TABLE);
    r.push(MILESTONES_TABLE);
    r.push(USER_SETTINGS_TABLE);
    r
}

/// The names of the entity relations, in declaration order.
pub const TABLE_NAMES: [&'static str; 8] = [
    "notes",
    "pages",
    "decks",
    "cards",
    "study_goals",
    "learning_logs",
    "milestones",
    "user_settings",
];

} // verus!
