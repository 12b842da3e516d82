use reminder_engine::models::Reminder;
use reminder_engine::snapshot::{
    from_record, from_records, restore, snapshot, to_record, to_records, ReminderRecord,
};
use reminder_engine::storage::ReminderStorage;
use reminder_engine::time::Timestamp;
use serde_json::Value;

fn reminder(id: &str, due: i64, recurrence: Option<&str>, owner: Option<&str>) -> Reminder {
    Reminder::with_identity(
        id.to_string(),
        Timestamp::new(1_762_000_000, 123_000_000),
        format!("message \"{}\"\n", id),
        Timestamp::new(due, 0),
        owner.map(|o| o.to_string()),
        recurrence.map(|r| r.to_string()),
    )
}

fn collection() -> Vec<Reminder> {
    let mut sent = reminder("b", 1_762_270_200, None, None);
    sent.sent = true;
    vec![
        reminder("a", 1_762_270_200, Some("daily"), Some("ana")),
        sent,
        reminder("c", -5, Some("15 minutes"), Some("bob")),
    ]
}

fn text(value: &Option<String>) -> Value {
    match value {
        Some(t) => Value::String(t.clone()),
        None => Value::Null,
    }
}

fn optional(value: &Value) -> Option<String> {
    value.as_str().map(|t| t.to_string())
}

fn to_json(records: &[ReminderRecord]) -> String {
    let mut list = Vec::new();
    for record in records {
        let mut object = serde_json::Map::new();
        object.insert("id".to_string(), Value::String(record.id.clone()));
        object.insert("message".to_string(), Value::String(record.message.clone()));
        object.insert("due_time".to_string(), Value::String(record.due_time.clone()));
        object.insert("username".to_string(), text(&record.username));
        object.insert("sent".to_string(), Value::Bool(record.sent));
        object.insert("created_at".to_string(), Value::String(record.created_at.clone()));
        object.insert("recurrence".to_string(), text(&record.recurrence));
        list.push(Value::Object(object));
    }
    serde_json::to_string_pretty(&Value::Array(list)).unwrap()
}

fn from_json(json: &str) -> Vec<ReminderRecord> {
    let value: Value = serde_json::from_str(json).unwrap();
    let mut records = Vec::new();
    for object in value.as_array().unwrap() {
        records.push(ReminderRecord {
            id: object["id"].as_str().unwrap().to_string(),
            message: object["message"].as_str().unwrap().to_string(),
            due_time: object["due_time"].as_str().unwrap().to_string(),
            username: optional(&object["username"]),
            sent: object["sent"].as_bool().unwrap(),
            created_at: object["created_at"].as_str().unwrap().to_string(),
            recurrence: optional(&object["recurrence"]),
        });
    }
    records
}

#[test]
fn a_record_carries_every_field() {
    let record = to_record(&reminder("a", 1_762_270_200, Some("daily"), Some("ana"))).unwrap();
    assert_eq!(
        record,
        ReminderRecord {
            id: "a".to_string(),
            message: "message \"a\"\n".to_string(),
            due_time: "2025-11-04T15:30:00+00:00".to_string(),
            username: Some("ana".to_string()),
            sent: false,
            created_at: "2025-11-01T12:26:40.123+00:00".to_string(),
            recurrence: Some("daily".to_string()),
        }
    );
}

#[test]
fn a_record_reads_back_as_its_reminder() {
    for r in collection() {
        let record = to_record(&r).unwrap();
        assert_eq!(from_record(&record), Some(r));
    }
}

#[test]
fn a_record_is_read_whichever_way_utc_is_written() {
    let record = |due_time: &str| ReminderRecord {
        id: "x".to_string(),
        message: "m".to_string(),
        due_time: due_time.to_string(),
        username: None,
        sent: true,
        created_at: "2025-11-01T12:26:40Z".to_string(),
        recurrence: None,
    };
    let expected = Timestamp::new(1_762_270_200, 0);
    for due_time in ["2025-11-04T15:30:00Z", "2025-11-04T15:30:00+00:00", "2025-11-04T17:30:00+02:00"] {
        let read = from_record(&record(due_time)).unwrap();
        assert_eq!(read.due_time, expected);
        assert_eq!(read.created_at, Timestamp::new(1_762_000_000, 0));
        assert!(read.sent);
    }
    assert_eq!(from_record(&record("soon")), None);
}

#[test]
fn an_instant_that_cannot_be_written_has_no_record() {
    let far = reminder("far", i64::MAX, None, None);
    assert_eq!(to_record(&far), None);
    let mut list = collection();
    list.push(far);
    assert_eq!(to_records(&list), None);
}

#[test]
fn one_bad_record_spoils_the_snapshot() {
    let mut records = to_records(&collection()).unwrap();
    assert_eq!(from_records(&records), Some(collection()));
    records[1].created_at = "yesterday".to_string();
    assert_eq!(from_records(&records), None);
    assert!(restore(&records).is_none());
}

#[test]
fn a_snapshot_restores_the_collection() {
    let store = ReminderStorage::new(collection());
    let records = snapshot(&store).unwrap();
    assert_eq!(records.len(), 3);
    let restored = restore(&records).unwrap();
    assert_eq!(restored.get_all_reminders(), collection());
    assert_eq!(snapshot(&ReminderStorage::new(Vec::new())), Some(Vec::new()));
}

#[test]
fn a_snapshot_survives_the_way_through_json() {
    let mut store = ReminderStorage::new(collection());
    store.reschedule_reminder("a", Timestamp::new(1_800_000_000, 5));
    store.mark_as_sent("c");
    let json = to_json(&snapshot(&store).unwrap());
    let restored = restore(&from_json(&json)).unwrap();
    assert_eq!(restored.get_all_reminders(), store.get_all_reminders());
    let now = Timestamp::new(1_762_270_200, 0);
    assert_eq!(restored.get_due_reminders(&now), store.get_due_reminders(&now));
    assert_eq!(restored.get_upcoming_reminders(&now), store.get_upcoming_reminders(&now));
}

#[test]
fn a_snapshot_written_with_z_for_utc_is_read() {
    let json = r#"[
      {
        "id": "7f8a",
        "message": "Water the plants",
        "due_time": "2025-11-04T15:30:00Z",
        "username": null,
        "sent": false,
        "created_at": "2025-11-01T12:26:40.123456789Z",
        "recurrence": "weekly"
      }
    ]"#;
    let restored = restore(&from_json(json)).unwrap();
    let all = restored.get_all_reminders();
    assert_eq!(all.len(), 1);
    assert_eq!(all[0].id, "7f8a");
    assert_eq!(all[0].due_time, Timestamp::new(1_762_270_200, 0));
    assert_eq!(all[0].created_at, Timestamp::new(1_762_000_000, 123_456_789));
    assert_eq!(all[0].username, None);
    assert_eq!(all[0].recurrence, Some("weekly".to_string()));
}
