//! Snapshots: the whole collection as it is written to storage.
//!
//! A snapshot holds one record for each reminder, in the order of the
//! store. A record carries every field of the reminder; the two instants
//! stand in it as RFC 3339 text in UTC.

use crate::models::{clone_text, views_of, Reminder, ReminderView};
use crate::storage::ReminderStorage;
use crate::text::text_view;
use crate::time::Timestamp;
use vstd::prelude::*;

verus! {

/// One reminder as a snapshot holds it.
#[derive(Debug, PartialEq, Eq)]
pub struct ReminderRecord {
    pub id: String,
    pub message: String,
    /// The due time as RFC 3339 text in UTC.
    pub due_time: String,
    pub username: Option<String>,
    pub sent: bool,
    /// The instant of creation as RFC 3339 text in UTC.
    pub created_at: String,
    pub recurrence: Option<String>,
}

/// The mathematical content of a [`ReminderRecord`].
pub struct ReminderRecordView {
    pub id: Seq<char>,
    pub message: Seq<char>,
    pub due_time: Seq<char>,
    pub username: Option<Seq<char>>,
    pub sent: bool,
    pub created_at: Seq<char>,
    pub recurrence: Option<Seq<char>>,
}

impl View for ReminderRecord {
    type V = ReminderRecordView;

    open spec fn view(&self) -> ReminderRecordView {
        ReminderRecordView {
            id: self.id@,
            message: self.message@,
            due_time: self.due_time@,
            username: text_view(self.username),
            sent: self.sent,
            created_at: self.created_at@,
            recurrence: text_view(self.recurrence),
        }
    }
}

/// The mathematical contents of the records in `records`, in order.
pub open spec fn record_views(records: Seq<ReminderRecord>) -> Seq<ReminderRecordView> {
    records.map_values(|r: ReminderRecord| r@)
}

/// The record of a reminder, where both of its instants can be written.
pub open spec fn record_of(r: ReminderView) -> Option<ReminderRecordView> {
    match (r.due_time.rfc3339(), r.created_at.rfc3339()) {
        (Some(due_time), Some(created_at)) => Some(
            ReminderRecordView {
                id: r.id,
                message: r.message,
                due_time,
                username: r.username,
                sent: r.sent,
                created_at,
                recurrence: r.recurrence,
            },
        ),
        _ => None,
    }
}

/// The reminder of a record, where both of its instants can be read.
pub open spec fn reminder_of(record: ReminderRecordView) -> Option<ReminderView> {
    match (Timestamp::parsed(record.due_time), Timestamp::parsed(record.created_at)) {
        (Some(due_time), Some(created_at)) => Some(
            ReminderView {
                id: record.id,
                message: record.message,
                due_time,
                username: record.username,
                sent: record.sent,
                created_at,
                recurrence: record.recurrence,
            },
        ),
        _ => None,
    }
}

/// The records of the reminders of `s`, in order, where every reminder has one.
pub open spec fn records_of(s: Seq<ReminderView>) -> Option<Seq<ReminderRecordView>> {
    if forall|i: int| 0 <= i < s.len() ==> record_of(#[trigger] s[i]) is Some {
        Some(s.map_values(|r: ReminderView| record_of(r)->0))
    } else {
        None
    }
}

/// The reminders of `records`, in order, where every record has one.
pub open spec fn reminders_of(records: Seq<ReminderRecordView>) -> Option<Seq<ReminderView>> {
    if forall|i: int| 0 <= i < records.len() ==> reminder_of(#[trigger] records[i]) is Some {
        Some(records.map_values(|r: ReminderRecordView| reminder_of(r)->0))
    } else {
        None
    }
}

/// The instant can be written, and what is written reads back as the instant.
pub open spec fn reads_back(instant: Timestamp) -> bool {
    instant.rfc3339() matches Some(text) && Timestamp::parsed(text) == Some(instant)
}

/// Writes the record of a reminder. `None` where one of its instants lies
/// outside the dates that can be written.
pub fn to_record(reminder: &Reminder) -> (record: Option<ReminderRecord>)
    ensures
        match record {
            Some(record) => record_of(reminder@) == Some(record@),
            None => record_of(reminder@) is None,
        },
{
    let due_time = match reminder.due_time.to_rfc3339() {
        Some(text) => text,
        None => { return None; },
    };
    let created_at = match reminder.created_at.to_rfc3339() {
        Some(text) => text,
        None => { return None; },
    };
    Some(
        ReminderRecord {
            id: reminder.id.clone(),
            message: reminder.message.clone(),
            due_time,
            username: clone_text(&reminder.username),
            sent: reminder.sent,
            created_at,
            recurrence: clone_text(&reminder.recurrence),
        },
    )
}

/// Reads the reminder of a record. `None` where one of its instants is no
/// date and time.
pub fn from_record(record: &ReminderRecord) -> (reminder: Option<Reminder>)
    ensures
        match reminder {
            Some(reminder) => reminder_of(record@) == Some(reminder@),
            None => reminder_of(record@) is None,
        },
{
    let due_time = match Timestamp::parse(record.due_time.as_str()) {
        Some(instant) => instant,
        None => { return None; },
    };
    let created_at = match Timestamp::parse(record.created_at.as_str()) {
        Some(instant) => instant,
        None => { return None; },
    };
    Some(
        Reminder {
            id: record.id.clone(),
            message: record.message.clone(),
            due_time,
            username: clone_text(&record.username),
            sent: record.sent,
            created_at,
            recurrence: clone_text(&record.recurrence),
        },
    )
}

/// Writes the records of `reminders`, in order. `None` where some reminder
/// has no record.
pub fn to_records(reminders: &Vec<Reminder>) -> (records: Option<Vec<ReminderRecord>>)
    ensures
        match records {
            Some(records) => records_of(views_of(reminders@)) == Some(record_views(records@)),
            None => records_of(views_of(reminders@)) is None,
        },
{
    let ghost all = views_of(reminders@);
    let mut records: Vec<ReminderRecord> = Vec::new();
    let mut i: usize = 0;
    while i < reminders.len()
        invariant
            i <= reminders.len(),
            all == views_of(reminders@),
            records.len() == i,
            forall|k: int| 0 <= k < i ==> record_of(#[trigger] all[k]) == Some(records[k]@),
        decreases reminders.len() - i,
    {
        match to_record(&reminders[i]) {
            Some(record) => {
                records.push(record);
            },
            None => {
                assert(record_of(all[i as int]) is None);
                return None;
            },
        }
        i += 1;
    }
    assert(record_views(records@) =~= all.map_values(|r: ReminderView| record_of(r)->0));
    Some(records)
}

/// Reads the reminders of `records`, in order. `None` where some record
/// has no reminder.
pub fn from_records(records: &Vec<ReminderRecord>) -> (reminders: Option<Vec<Reminder>>)
    ensures
        match reminders {
            Some(reminders) => reminders_of(record_views(records@)) == Some(views_of(reminders@)),
            None => reminders_of(record_views(records@)) is None,
        },
{
    let ghost all = record_views(records@);
    let mut reminders: Vec<Reminder> = Vec::new();
    let mut i: usize = 0;
    while i < records.len()
        invariant
            i <= records.len(),
            all == record_views(records@),
            reminders.len() == i,
            forall|k: int| 0 <= k < i ==> reminder_of(#[trigger] all[k]) == Some(reminders[k]@),
        decreases records.len() - i,
    {
        match from_record(&records[i]) {
            Some(reminder) => {
                reminders.push(reminder);
            },
            None => {
                assert(reminder_of(all[i as int]) is None);
                return None;
            },
        }
        i += 1;
    }
    assert(views_of(reminders@) =~= all.map_values(|r: ReminderRecordView| reminder_of(r)->0));
    Some(reminders)
}

/// Writes the snapshot of a store: the record of every reminder, in the
/// order of the store. `None` where some reminder has no record.
pub fn snapshot(store: &ReminderStorage) -> (records: Option<Vec<ReminderRecord>>)
    ensures
        match records {
            Some(records) => records_of(store@) == Some(record_views(records@)),
            None => records_of(store@) is None,
        },
{
    let all = store.get_all_reminders();
    to_records(&all)
}

/// Opens a store on a snapshot: it holds the reminder of every record, in
/// the order of the snapshot. `None` where some record has no reminder.
pub fn restore(records: &Vec<ReminderRecord>) -> (store: Option<ReminderStorage>)
    ensures
        match store {
            Some(store) => reminders_of(record_views(records@)) == Some(store@),
            None => reminders_of(record_views(records@)) is None,
        },
{
    match from_records(records) {
        Some(reminders) => Some(ReminderStorage::new(reminders)),
        None => None,
    }
}

/// A reminder whose two instants read back as they are written is restored
/// by reading its record.
pub proof fn lemma_record_round_trip(r: ReminderView)
    requires
        reads_back(r.due_time),
        reads_back(r.created_at),
    ensures
        record_of(r) is Some,
        reminder_of(record_of(r)->0) == Some(r),
{
}

/// A collection in which the instants of every reminder read back as they
/// are written is restored by reading its snapshot: the same reminders
/// with the same fields, in the same order.
pub proof fn lemma_snapshot_round_trip(s: Seq<ReminderView>)
    requires
        forall|i: int|
            0 <= i < s.len() ==> reads_back((#[trigger] s[i]).due_time) && reads_back(
                s[i].created_at,
            ),
    ensures
        records_of(s) is Some,
        reminders_of(records_of(s)->0) == Some(s),
{
    assert forall|i: int| 0 <= i < s.len() implies record_of(#[trigger] s[i]) is Some by {
        lemma_record_round_trip(s[i]);
    }
    let records = records_of(s)->0;
    assert forall|i: int| 0 <= i < records.len() implies reminder_of(#[trigger] records[i])
        == Some(s[i]) by {
        lemma_record_round_trip(s[i]);
    }
    assert(records.map_values(|r: ReminderRecordView| reminder_of(r)->0) =~= s);
}

} // verus!
