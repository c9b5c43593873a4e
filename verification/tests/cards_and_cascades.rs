use local_store::cards::{CardUpdate, LocalCard};
use local_store::decks::{DeckUpdate, LocalDeck};
use local_store::errors::DbError;
use local_store::learning_logs::LocalLearningLog;
use local_store::milestones::LocalMilestone;
use local_store::store::LocalDB;
use local_store::study_goals::LocalStudyGoal;
use local_store::sync::SyncStatus;

fn deck(id: &str, user: &str, at: u64) -> LocalDeck {
    LocalDeck {
        id: id.to_string(),
        user_id: user.to_string(),
        title: format!("deck {}", id),
        description: None,
        is_public: false,
        created_at: at,
        updated_at: at,
        sync_status: SyncStatus::Pending,
        synced_at: None,
        local_updated_at: at,
        server_updated_at: None,
    }
}

fn card(id: &str, deck: &str, user: &str, due: Option<u64>, at: u64) -> LocalCard {
    LocalCard {
        id: id.to_string(),
        deck_id: deck.to_string(),
        user_id: user.to_string(),
        front_content: "front".to_string(),
        back_content: "back".to_string(),
        source_audio_url: None,
        source_ocr_image_url: None,
        created_at: at,
        updated_at: at,
        ease_factor: "2.5".to_string(),
        repetition_count: 0,
        review_interval: 0,
        next_review_at: due,
        stability: "0.0".to_string(),
        difficulty: "1.0".to_string(),
        last_reviewed_at: None,
        sync_status: SyncStatus::Pending,
        synced_at: None,
        local_updated_at: at,
        server_updated_at: None,
    }
}

fn log(id: &str, card: &str, user: &str, at: u64) -> LocalLearningLog {
    LocalLearningLog {
        id: id.to_string(),
        user_id: user.to_string(),
        card_id: card.to_string(),
        question_id: None,
        answered_at: at,
        is_correct: true,
        user_answer: None,
        practice_mode: "flashcard".to_string(),
        review_interval: None,
        next_review_at: None,
        quality: 4,
        response_time: 1200,
        effort_time: 1500,
        attempt_count: 1,
        sync_status: SyncStatus::Pending,
        synced_at: None,
        local_updated_at: at,
        server_updated_at: None,
    }
}

fn goal(id: &str, user: &str, at: u64) -> LocalStudyGoal {
    LocalStudyGoal {
        id: id.to_string(),
        user_id: user.to_string(),
        title: format!("goal {}", id),
        description: None,
        created_at: at,
        updated_at: at,
        deadline: None,
        progress_rate: 0,
        status: "not_started".to_string(),
        completed_at: None,
        sync_status: SyncStatus::Pending,
        synced_at: None,
        local_updated_at: at,
        server_updated_at: None,
    }
}

fn milestone(id: &str, goal: &str, at: u64) -> LocalMilestone {
    LocalMilestone {
        id: id.to_string(),
        goal_id: goal.to_string(),
        title: format!("milestone {}", id),
        description: None,
        due_date: None,
        is_completed: false,
        created_at: at,
        updated_at: at,
        sync_status: SyncStatus::Pending,
        synced_at: None,
        local_updated_at: at,
        server_updated_at: None,
    }
}

#[test]
fn card_requires_existing_deck() {
    let mut db = LocalDB::new();
    let c = card("c1", "missing-deck", "u1", None, 1000);
    assert_eq!(db.insert_card(&c), Err(DbError::NotFound));
    db.insert_deck(&deck("d1", "u1", 1000)).unwrap();
    db.insert_card(&card("c1", "d1", "u1", None, 1000)).unwrap();
    assert!(db.get_card_by_id("c1").unwrap().is_some());
}

#[test]
fn log_requires_existing_card() {
    let mut db = LocalDB::new();
    assert_eq!(db.insert_learning_log(&log("l1", "missing", "u1", 1000)), Err(DbError::NotFound));
    db.insert_deck(&deck("d1", "u1", 1000)).unwrap();
    db.insert_card(&card("c1", "d1", "u1", None, 1000)).unwrap();
    db.insert_learning_log(&log("l1", "c1", "u1", 1000)).unwrap();
    assert_eq!(db.get_learning_logs_by_card("c1").unwrap().len(), 1);
}

#[test]
fn milestone_requires_existing_goal() {
    let mut db = LocalDB::new();
    assert_eq!(db.insert_milestone(&milestone("m1", "missing", 1000)), Err(DbError::NotFound));
    db.insert_study_goal(&goal("g1", "u1", 1000)).unwrap();
    db.insert_milestone(&milestone("m1", "g1", 1000)).unwrap();
    assert_eq!(db.get_milestones_by_goal("g1").unwrap().len(), 1);
}

#[test]
fn due_cards_filter_and_order() {
    // Two cards due on the first and the third day of 2024; asking on
    // the second day returns only the first.
    let jan1: u64 = 1_704_067_200_000;
    let jan2: u64 = 1_704_153_600_000;
    let jan3: u64 = 1_704_240_000_000;
    let mut db = LocalDB::new();
    db.insert_deck(&deck("d1", "u1", 1000)).unwrap();
    db.insert_card(&card("c1", "d1", "u1", Some(jan1), 1000)).unwrap();
    db.insert_card(&card("c2", "d1", "u1", Some(jan3), 1000)).unwrap();

    let due = db.get_due_cards("u1", jan2).unwrap();
    assert_eq!(due.len(), 1);
    assert_eq!(due[0].id, "c1");

    // Asking after both are due returns both, earliest first.
    let due_later = db.get_due_cards("u1", jan3).unwrap();
    assert_eq!(due_later.len(), 2);
    assert_eq!(due_later[0].id, "c1");
    assert_eq!(due_later[1].id, "c2");
}

#[test]
fn due_order_breaks_ties_by_id() {
    let jan1: u64 = 1_704_067_200_000;
    let mut db = LocalDB::new();
    db.insert_deck(&deck("d1", "u1", 1000)).unwrap();
    db.insert_card(&card("z", "d1", "u1", Some(jan1), 1000)).unwrap();
    db.insert_card(&card("a", "d1", "u1", Some(jan1), 1000)).unwrap();
    let due = db.get_due_cards("u1", jan1).unwrap();
    assert_eq!(due.len(), 2);
    assert_eq!(due[0].id, "a");
    assert_eq!(due[1].id, "z");
}

#[test]
fn due_excludes_unscheduled_and_tombstoned() {
    let jan1: u64 = 1_704_067_200_000;
    let mut db = LocalDB::new();
    db.insert_deck(&deck("d1", "u1", 1000)).unwrap();
    db.insert_card(&card("c1", "d1", "u1", None, 1000)).unwrap();
    db.insert_card(&card("c2", "d1", "u1", Some(jan1), 1000)).unwrap();
    db.delete_card("c2", 2000).unwrap();
    assert_eq!(db.get_due_cards("u1", jan1).unwrap().len(), 0);
}

#[test]
fn deleting_deck_cascades_to_cards_and_logs() {
    let mut db = LocalDB::new();
    db.insert_deck(&deck("d1", "u1", 1000)).unwrap();
    db.insert_deck(&deck("d2", "u1", 1000)).unwrap();
    db.insert_card(&card("c1", "d1", "u1", None, 1000)).unwrap();
    db.insert_card(&card("c2", "d1", "u1", None, 1000)).unwrap();
    db.insert_card(&card("c3", "d2", "u1", None, 1000)).unwrap();
    db.insert_learning_log(&log("l1", "c1", "u1", 1000)).unwrap();
    db.insert_learning_log(&log("l2", "c3", "u1", 1000)).unwrap();

    db.hard_delete_deck("d1").unwrap();

    assert!(db.get_deck_by_id("d1").unwrap().is_none());
    assert!(db.get_card_by_id("c1").unwrap().is_none());
    assert!(db.get_card_by_id("c2").unwrap().is_none());
    assert!(db.get_card_by_id("c3").unwrap().is_some());
    assert_eq!(db.get_learning_logs_by_card("c1").unwrap().len(), 0);
    assert_eq!(db.get_learning_logs_by_user("u1").unwrap().len(), 1);
    assert_eq!(db.get_learning_logs_by_user("u1").unwrap()[0].id, "l2");
}

#[test]
fn deleting_card_cascades_to_logs() {
    let mut db = LocalDB::new();
    db.insert_deck(&deck("d1", "u1", 1000)).unwrap();
    db.insert_card(&card("c1", "d1", "u1", None, 1000)).unwrap();
    db.insert_card(&card("c2", "d1", "u1", None, 1000)).unwrap();
    db.insert_learning_log(&log("l1", "c1", "u1", 1000)).unwrap();
    db.insert_learning_log(&log("l2", "c2", "u1", 1000)).unwrap();

    db.hard_delete_card("c1").unwrap();

    assert!(db.get_card_by_id("c1").unwrap().is_none());
    assert_eq!(db.get_learning_logs_by_user("u1").unwrap().len(), 1);
    assert_eq!(db.get_learning_logs_by_user("u1").unwrap()[0].id, "l2");
}

#[test]
fn deleting_goal_cascades_to_milestones() {
    let mut db = LocalDB::new();
    db.insert_study_goal(&goal("g1", "u1", 1000)).unwrap();
    db.insert_study_goal(&goal("g2", "u1", 1000)).unwrap();
    db.insert_milestone(&milestone("m1", "g1", 1000)).unwrap();
    db.insert_milestone(&milestone("m2", "g2", 1000)).unwrap();

    db.hard_delete_study_goal("g1").unwrap();

    assert!(db.get_study_goal_by_id("g1").unwrap().is_none());
    assert!(db.get_milestone_by_id("m1").unwrap().is_none());
    assert!(db.get_milestone_by_id("m2").unwrap().is_some());
}

#[test]
fn soft_deleting_deck_keeps_its_cards() {
    let mut db = LocalDB::new();
    db.insert_deck(&deck("d1", "u1", 1000)).unwrap();
    db.insert_card(&card("c1", "d1", "u1", None, 1000)).unwrap();
    db.delete_deck("d1", 2000).unwrap();
    assert!(db.get_card_by_id("c1").unwrap().is_some());
    assert_eq!(db.get_deck_by_id("d1").unwrap().unwrap().sync_status, SyncStatus::Deleted);
}

#[test]
fn invalid_log_fields_are_validation_errors() {
    let mut db = LocalDB::new();
    db.insert_deck(&deck("d1", "u1", 1000)).unwrap();
    db.insert_card(&card("c1", "d1", "u1", None, 1000)).unwrap();

    let mut bad_mode = log("l1", "c1", "u1", 1000);
    bad_mode.practice_mode = "osmosis".to_string();
    assert_eq!(db.insert_learning_log(&bad_mode), Err(DbError::ValidationError));

    let mut bad_quality = log("l2", "c1", "u1", 1000);
    bad_quality.quality = 6;
    assert_eq!(db.insert_learning_log(&bad_quality), Err(DbError::ValidationError));
}

#[test]
fn invalid_goal_fields_are_validation_errors() {
    let mut db = LocalDB::new();
    let mut over = goal("g1", "u1", 1000);
    over.progress_rate = 101;
    assert_eq!(db.insert_study_goal(&over), Err(DbError::ValidationError));

    let mut bad_status = goal("g2", "u1", 1000);
    bad_status.status = "paused".to_string();
    assert_eq!(db.insert_study_goal(&bad_status), Err(DbError::ValidationError));
}

#[test]
fn deck_update_clears_doubled_description() {
    let mut db = LocalDB::new();
    let mut d = deck("d1", "u1", 1000);
    d.description = Some("about".to_string());
    db.insert_deck(&d).unwrap();
    let u = DeckUpdate { title: None, description: Some(None), is_public: Some(true) };
    let updated = db.update_deck("d1", u, 2000).unwrap().unwrap();
    assert_eq!(updated.description, None);
    assert!(updated.is_public);
    assert_eq!(updated.sync_status, SyncStatus::Pending);
    assert_eq!(updated.local_updated_at, 2000);
}

#[test]
fn card_update_reschedules_review() {
    let jan1: u64 = 1_704_067_200_000;
    let mut db = LocalDB::new();
    db.insert_deck(&deck("d1", "u1", 1000)).unwrap();
    db.insert_card(&card("c1", "d1", "u1", None, 1000)).unwrap();
    let u = CardUpdate {
        next_review_at: Some(Some(jan1)),
        ease_factor: Some("2.6".to_string()),
        repetition_count: Some(1),
        ..CardUpdate::default()
    };
    let updated = db.update_card("c1", u, 2000).unwrap().unwrap();
    assert_eq!(updated.next_review_at, Some(jan1));
    assert_eq!(updated.ease_factor, "2.6");
    assert_eq!(updated.repetition_count, 1);
    assert_eq!(updated.front_content, "front");
    assert_eq!(updated.sync_status, SyncStatus::Pending);
    assert_eq!(db.get_due_cards("u1", jan1).unwrap().len(), 1);
}

#[test]
fn cards_listed_by_deck() {
    let mut db = LocalDB::new();
    db.insert_deck(&deck("d1", "u1", 1000)).unwrap();
    db.insert_deck(&deck("d2", "u1", 1000)).unwrap();
    db.insert_card(&card("c1", "d1", "u1", None, 1000)).unwrap();
    db.insert_card(&card("c2", "d2", "u1", None, 1000)).unwrap();
    let in_d1 = db.get_cards_by_deck("d1").unwrap();
    assert_eq!(in_d1.len(), 1);
    assert_eq!(in_d1[0].id, "c1");
}
