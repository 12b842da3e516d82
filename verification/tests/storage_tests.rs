use reminder_engine::models::Reminder;
use reminder_engine::storage::ReminderStorage;
use reminder_engine::time::Timestamp;

fn reminder(id: &str, due: i64) -> Reminder {
    Reminder::with_identity(
        id.to_string(),
        Timestamp::new(0, 0),
        format!("message {}", id),
        Timestamp::new(due, 0),
        None,
        None,
    )
}

fn ids(reminders: &[Reminder]) -> Vec<String> {
    reminders.iter().map(|r| r.id.clone()).collect()
}

#[test]
fn a_new_store_holds_its_snapshot() {
    let empty = ReminderStorage::new(Vec::new());
    assert!(empty.get_all_reminders().is_empty());
    let store = ReminderStorage::new(vec![reminder("a", 10), reminder("b", 5)]);
    assert_eq!(store.get_all_reminders(), vec![reminder("a", 10), reminder("b", 5)]);
}

#[test]
fn add_appends_and_returns_the_stored_copy() {
    let mut store = ReminderStorage::new(vec![reminder("a", 10)]);
    let stored = store.add_reminder(reminder("b", 5));
    assert_eq!(stored, reminder("b", 5));
    assert_eq!(store.get_all_reminders(), vec![reminder("a", 10), reminder("b", 5)]);
}

#[test]
fn due_reminders_are_unsent_and_not_after_now() {
    let mut store = ReminderStorage::new(Vec::new());
    store.add_reminder(reminder("later", 200));
    store.add_reminder(reminder("exactly", 100));
    store.add_reminder(reminder("earlier", 50));
    store.add_reminder(reminder("sent", 10));
    store.mark_as_sent("sent");
    let due = store.get_due_reminders(&Timestamp::new(100, 0));
    assert_eq!(ids(&due), vec!["exactly", "earlier"]);
    assert!(store.get_due_reminders(&Timestamp::new(9, 0)).is_empty());
}

#[test]
fn due_looks_at_the_nanoseconds() {
    let mut store = ReminderStorage::new(Vec::new());
    let mut r = reminder("a", 100);
    r.due_time = Timestamp::new(100, 500);
    store.add_reminder(r);
    assert!(store.get_due_reminders(&Timestamp::new(100, 499)).is_empty());
    assert_eq!(store.get_due_reminders(&Timestamp::new(100, 500)).len(), 1);
    assert_eq!(store.get_upcoming_reminders(&Timestamp::new(100, 499)).len(), 1);
    assert!(store.get_upcoming_reminders(&Timestamp::new(100, 500)).is_empty());
}

#[test]
fn upcoming_reminders_are_unsent_after_now_and_ascending() {
    let mut store = ReminderStorage::new(Vec::new());
    for (id, due) in [("e", 500), ("b", 200), ("past", 50), ("d", 400), ("now", 100), ("c", 300), ("sent", 250)] {
        store.add_reminder(reminder(id, due));
    }
    store.mark_as_sent("sent");
    let now = Timestamp::new(100, 0);
    let upcoming = store.get_upcoming_reminders(&now);
    assert_eq!(ids(&upcoming), vec!["b", "c", "d", "e"]);
    for r in &upcoming {
        assert!(!r.sent);
        assert!(r.due_time.after(&now));
    }
    for pair in upcoming.windows(2) {
        assert!(pair[0].due_time.at_or_before(&pair[1].due_time));
    }
    // Listing changes nothing.
    assert_eq!(store.get_all_reminders().len(), 7);
}

#[test]
fn upcoming_reminders_with_one_due_time_keep_their_order() {
    let mut store = ReminderStorage::new(Vec::new());
    for (id, due) in [("x1", 300), ("y1", 200), ("x2", 300), ("y2", 200), ("x3", 300)] {
        store.add_reminder(reminder(id, due));
    }
    let upcoming = store.get_upcoming_reminders(&Timestamp::new(0, 0));
    assert_eq!(ids(&upcoming), vec!["y1", "y2", "x1", "x2", "x3"]);
}

#[test]
fn every_unsent_reminder_is_either_due_or_upcoming() {
    let mut store = ReminderStorage::new(Vec::new());
    for (id, due) in [("a", 1), ("b", 2), ("c", 3), ("d", 4)] {
        store.add_reminder(reminder(id, due));
    }
    for now in 0..6 {
        let now = Timestamp::new(now, 0);
        let due = store.get_due_reminders(&now).len();
        let upcoming = store.get_upcoming_reminders(&now).len();
        assert_eq!(due + upcoming, 4);
    }
}

#[test]
fn mark_as_sent_sets_the_flag_of_the_matching_reminder() {
    let mut store = ReminderStorage::new(vec![reminder("a", 10), reminder("b", 20)]);
    assert!(store.mark_as_sent("b"));
    let mut sent = reminder("b", 20);
    sent.sent = true;
    assert_eq!(store.get_all_reminders(), vec![reminder("a", 10), sent]);
}

#[test]
fn mark_as_sent_of_an_absent_id_changes_nothing() {
    let mut store = ReminderStorage::new(vec![reminder("a", 10)]);
    assert!(!store.mark_as_sent("missing"));
    assert!(!store.mark_as_sent(""));
    assert!(!store.mark_as_sent("A"));
    assert_eq!(store.get_all_reminders(), vec![reminder("a", 10)]);
}

#[test]
fn reschedule_moves_the_due_time_and_clears_the_flag() {
    let mut store = ReminderStorage::new(vec![reminder("a", 10), reminder("b", 20)]);
    store.mark_as_sent("a");
    assert!(store.reschedule_reminder("a", Timestamp::new(99, 7)));
    let mut moved = reminder("a", 10);
    moved.due_time = Timestamp::new(99, 7);
    assert_eq!(store.get_all_reminders(), vec![moved, reminder("b", 20)]);
}

#[test]
fn reschedule_of_an_absent_id_changes_nothing() {
    let mut store = ReminderStorage::new(vec![reminder("a", 10)]);
    assert!(!store.reschedule_reminder("zzz", Timestamp::new(99, 0)));
    assert_eq!(store.get_all_reminders(), vec![reminder("a", 10)]);
}

#[test]
fn marking_twice_is_marking_once() {
    let mut once = ReminderStorage::new(vec![reminder("a", 10), reminder("b", 20)]);
    once.mark_as_sent("a");
    let mut twice = ReminderStorage::new(vec![reminder("a", 10), reminder("b", 20)]);
    twice.mark_as_sent("a");
    assert!(twice.mark_as_sent("a"));
    assert_eq!(once.get_all_reminders(), twice.get_all_reminders());
}

#[test]
fn rescheduling_twice_is_rescheduling_once() {
    let next = Timestamp::new(1_000, 1);
    let mut once = ReminderStorage::new(vec![reminder("a", 10), reminder("b", 20)]);
    once.reschedule_reminder("b", next);
    let mut twice = ReminderStorage::new(vec![reminder("a", 10), reminder("b", 20)]);
    twice.reschedule_reminder("b", next);
    assert!(twice.reschedule_reminder("b", next));
    assert_eq!(once.get_all_reminders(), twice.get_all_reminders());
}

#[test]
fn only_the_first_of_two_reminders_with_one_id_changes() {
    let mut store = ReminderStorage::new(vec![reminder("dup", 10), reminder("dup", 20)]);
    store.mark_as_sent("dup");
    let all = store.get_all_reminders();
    assert!(all[0].sent);
    assert!(!all[1].sent);
}

#[test]
fn a_snapshot_restores_the_store() {
    let mut store = ReminderStorage::new(Vec::new());
    let mut recurring = reminder("r", 30);
    recurring.recurrence = Some("daily".to_string());
    recurring.username = Some("ana".to_string());
    store.add_reminder(reminder("a", 10));
    store.add_reminder(recurring);
    store.mark_as_sent("a");
    let snapshot = store.get_all_reminders();
    let restored = ReminderStorage::new(snapshot);
    assert_eq!(restored.get_all_reminders(), store.get_all_reminders());
    let now = Timestamp::new(40, 0);
    assert_eq!(restored.get_due_reminders(&now), store.get_due_reminders(&now));
}
