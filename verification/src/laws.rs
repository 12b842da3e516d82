//! What holds of the store and the scanner as a whole.
//!
//! Each proof function here states one law over the same spec functions
//! that the contracts of the operations use, so a law speaks of every store
//! that the operations can produce.

use crate::models::ReminderView;
use crate::recurrence::{
    lemma_periods_to_skip_is_least, lies_after, periods_to_skip, recurrence_of,
};
use crate::scanner::{after_scan, lemma_scan_settles_each, scanned, settled_all};
use crate::search::{lemma_first_index, lemma_first_index_agrees};
use crate::storage::{
    due_at, has_id, identified_by, ids_distinct, lemma_ascending_by_due, pending_at, position_of,
    upcoming_at, with_due_time, with_sent,
};
use crate::time::Timestamp;
use vstd::prelude::*;

verus! {

/// Adding a reminder whose identifier is new keeps the identifiers distinct.
pub proof fn lemma_add_keeps_ids_distinct(s: Seq<ReminderView>, r: ReminderView)
    requires
        ids_distinct(s),
        !has_id(s, r.id),
    ensures
        ids_distinct(s.push(r)),
{
    let t = s.push(r);
    assert forall|i: int, j: int| 0 <= i < t.len() && 0 <= j < t.len() && i != j implies (
    #[trigger] t[i]).id != (#[trigger] t[j]).id by {
        if i < s.len() {
            assert(t[i] == s[i]);
            assert(!identified_by(r.id)(s[i]));
        }
        if j < s.len() {
            assert(t[j] == s[j]);
            assert(!identified_by(r.id)(s[j]));
        }
    }
}

/// Marking as sent changes neither the number of reminders nor any identifier.
pub proof fn lemma_with_sent_keeps_ids(s: Seq<ReminderView>, id: Seq<char>)
    ensures
        with_sent(s, id).len() == s.len(),
        forall|i: int| 0 <= i < s.len() ==> (#[trigger] with_sent(s, id)[i]).id == s[i].id,
        ids_distinct(s) ==> ids_distinct(with_sent(s, id)),
{
    lemma_first_index(s, identified_by(id));
    let t = with_sent(s, id);
    assert forall|i: int| 0 <= i < s.len() implies (#[trigger] t[i]).id == s[i].id by {}
    if ids_distinct(s) {
        assert forall|i: int, j: int| 0 <= i < t.len() && 0 <= j < t.len() && i != j implies (
        #[trigger] t[i]).id != (#[trigger] t[j]).id by {
            assert(t[i].id == s[i].id && t[j].id == s[j].id);
        }
    }
}

/// Rescheduling changes neither the number of reminders nor any identifier.
pub proof fn lemma_with_due_time_keeps_ids(s: Seq<ReminderView>, id: Seq<char>, next: Timestamp)
    ensures
        with_due_time(s, id, next).len() == s.len(),
        forall|i: int|
            0 <= i < s.len() ==> (#[trigger] with_due_time(s, id, next)[i]).id == s[i].id,
        ids_distinct(s) ==> ids_distinct(with_due_time(s, id, next)),
{
    lemma_first_index(s, identified_by(id));
    let t = with_due_time(s, id, next);
    assert forall|i: int| 0 <= i < s.len() implies (#[trigger] t[i]).id == s[i].id by {}
    if ids_distinct(s) {
        assert forall|i: int, j: int| 0 <= i < t.len() && 0 <= j < t.len() && i != j implies (
        #[trigger] t[i]).id != (#[trigger] t[j]).id by {
            assert(t[i].id == s[i].id && t[j].id == s[j].id);
        }
    }
}

/// A change that keeps every identifier in its place keeps the first place
/// of each identifier.
pub proof fn lemma_position_of_same_ids(s: Seq<ReminderView>, t: Seq<ReminderView>, id: Seq<char>)
    requires
        t.len() == s.len(),
        forall|i: int| 0 <= i < s.len() ==> (#[trigger] t[i]).id == s[i].id,
    ensures
        position_of(t, id) == position_of(s, id),
{
    assert forall|i: int| 0 <= i < s.len() implies identified_by(id)(#[trigger] s[i])
        == identified_by(id)(t[i]) by {
        assert(t[i].id == s[i].id);
    }
    lemma_first_index_agrees(s, t, identified_by(id));
}

/// Marking a reminder as sent twice leaves the store as marking it once does.
pub proof fn lemma_mark_as_sent_is_idempotent(s: Seq<ReminderView>, id: Seq<char>)
    ensures
        with_sent(with_sent(s, id), id) == with_sent(s, id),
{
    let once = with_sent(s, id);
    lemma_with_sent_keeps_ids(s, id);
    lemma_position_of_same_ids(s, once, id);
    lemma_first_index(s, identified_by(id));
    assert(with_sent(once, id) =~= once);
}

/// Rescheduling a reminder twice to the same instant leaves the store as
/// rescheduling it once does.
pub proof fn lemma_reschedule_is_idempotent(s: Seq<ReminderView>, id: Seq<char>, next: Timestamp)
    ensures
        with_due_time(with_due_time(s, id, next), id, next) == with_due_time(s, id, next),
{
    let once = with_due_time(s, id, next);
    lemma_with_due_time_keeps_ids(s, id, next);
    lemma_position_of_same_ids(s, once, id);
    lemma_first_index(s, identified_by(id));
    assert(with_due_time(once, id, next) =~= once);
}

/// Settling reminders changes neither the number of reminders nor any
/// identifier, so a store whose identifiers are distinct keeps them distinct.
pub proof fn lemma_settled_all_keeps_ids(
    s: Seq<ReminderView>,
    due: Seq<ReminderView>,
    now: Timestamp,
)
    ensures
        settled_all(s, due, now).len() == s.len(),
        forall|i: int| 0 <= i < s.len() ==> (#[trigger] settled_all(s, due, now)[i]).id == s[i].id,
        ids_distinct(s) ==> ids_distinct(settled_all(s, due, now)),
    decreases due.len(),
{
    let t = settled_all(s, due, now);
    if due.len() > 0 {
        let before = settled_all(s, due.drop_last(), now);
        lemma_settled_all_keeps_ids(s, due.drop_last(), now);
        let r = due.last();
        match r.next_occurrence(now) {
            Some(next) => lemma_with_due_time_keeps_ids(before, r.id, next),
            None => lemma_with_sent_keeps_ids(before, r.id),
        }
        assert forall|i: int| 0 <= i < s.len() implies (#[trigger] t[i]).id == s[i].id by {
            assert(t[i].id == before[i].id);
        }
    }
    if ids_distinct(s) {
        assert forall|i: int, j: int| 0 <= i < t.len() && 0 <= j < t.len() && i != j implies (
        #[trigger] t[i]).id != (#[trigger] t[j]).id by {
            assert(t[i].id == s[i].id && t[j].id == s[j].id);
        }
    }
}

/// A scan keeps the number of reminders, their identifiers and the
/// distinctness of the identifiers.
pub proof fn lemma_scan_keeps_ids(s: Seq<ReminderView>, now: Timestamp)
    ensures
        scanned(s, now).len() == s.len(),
        forall|i: int| 0 <= i < s.len() ==> (#[trigger] scanned(s, now)[i]).id == s[i].id,
        ids_distinct(s) ==> ids_distinct(scanned(s, now)),
{
    lemma_settled_all_keeps_ids(s, due_at(s, now), now);
}

/// A next occurrence lies strictly after the instant for which it was
/// computed, a whole number of periods after the due time, and it is the
/// first such occurrence: the number of periods is positive, and no smaller
/// positive number of periods leads past that instant.
pub proof fn lemma_next_occurrence_is_first_after(r: ReminderView, now: Timestamp)
    requires
        r.next_occurrence(now) is Some,
    ensures
        r.recurrence_rule() is Some,
        r.recurrence_rule()->0.interval_seconds() > 0,
        r.next_occurrence(now)->0.is_after(now),
        r.next_occurrence(now)->0.nanos == r.due_time.nanos,
        r.next_occurrence(now)->0.secs == r.due_time.secs + periods_to_skip(
            r.due_time,
            now,
            r.recurrence_rule()->0.interval_seconds(),
        ) * r.recurrence_rule()->0.interval_seconds(),
        periods_to_skip(r.due_time, now, r.recurrence_rule()->0.interval_seconds()) >= 1,
        forall|k: int|
            1 <= k < periods_to_skip(r.due_time, now, r.recurrence_rule()->0.interval_seconds())
                ==> !lies_after(
                r.due_time.secs + #[trigger] (k * r.recurrence_rule()->0.interval_seconds()),
                r.due_time.nanos,
                now,
            ),
{
    let rule = r.recurrence_rule()->0;
    lemma_periods_to_skip_is_least(r.due_time, now, rule.interval_seconds());
}

/// Every recurrence that can be read from text has a positive period.
pub proof fn lemma_read_recurrence_is_positive(text: Seq<char>)
    requires
        recurrence_of(text) is Ok,
    ensures
        recurrence_of(text)->Ok_0.interval_seconds() > 0,
{
}

/// A valid recurring reminder has a next occurrence, unless that occurrence
/// lies beyond the last second that a timestamp can hold; so a scan never
/// marks it as sent short of that.
pub proof fn lemma_valid_recurring_is_rescheduled(r: ReminderView, now: Timestamp)
    requires
        r.is_valid(),
        r.recurrence is Some,
        r.due_time.secs + periods_to_skip(
            r.due_time,
            now,
            r.recurrence_rule()->0.interval_seconds(),
        ) * r.recurrence_rule()->0.interval_seconds() <= i64::MAX,
    ensures
        r.next_occurrence(now) is Some,
        r.is_due(now) ==> !after_scan(r, now).sent,
{
    lemma_read_recurrence_is_positive(r.recurrence->0);
}

/// A scan keeps a valid reminder valid.
pub proof fn lemma_scan_keeps_valid(r: ReminderView, now: Timestamp)
    requires
        r.is_valid(),
    ensures
        after_scan(r, now).is_valid(),
{
}

/// A reminder with a readable recurrence of a positive period has a next
/// occurrence, unless that occurrence lies beyond the last second that a
/// timestamp can hold.
pub proof fn lemma_recurring_has_next_occurrence(r: ReminderView, now: Timestamp)
    requires
        r.recurrence_rule() is Some,
        r.recurrence_rule()->0.interval_seconds() > 0,
        r.due_time.secs + periods_to_skip(
            r.due_time,
            now,
            r.recurrence_rule()->0.interval_seconds(),
        ) * r.recurrence_rule()->0.interval_seconds() <= i64::MAX,
    ensures
        r.next_occurrence(now) is Some,
{
}

/// After a scan of a store with distinct identifiers, a recurring reminder
/// that awaited delivery is unsent, and its due time is the first
/// occurrence strictly after the instant of the scan.
pub proof fn lemma_recurring_moves_past_now(s: Seq<ReminderView>, now: Timestamp, i: int)
    requires
        ids_distinct(s),
        0 <= i < s.len(),
        s[i].is_due(now),
        s[i].next_occurrence(now) is Some,
    ensures
        scanned(s, now)[i] == s[i].rescheduled(s[i].next_occurrence(now)->0),
        !scanned(s, now)[i].sent,
        scanned(s, now)[i].due_time.is_after(now),
        scanned(s, now)[i].is_upcoming(now),
{
    lemma_scan_settles_each(s, now);
    lemma_next_occurrence_is_first_after(s[i], now);
}

/// After a scan of a store with distinct identifiers, a reminder without
/// recurrence that awaited delivery is marked as sent and otherwise unchanged.
pub proof fn lemma_one_shot_is_sent(s: Seq<ReminderView>, now: Timestamp, i: int)
    requires
        ids_distinct(s),
        0 <= i < s.len(),
        s[i].is_due(now),
        s[i].recurrence is None,
    ensures
        scanned(s, now)[i] == s[i].marked_sent(),
        scanned(s, now)[i].sent,
{
    lemma_scan_settles_each(s, now);
}

/// A scan of a store with distinct identifiers leaves every sent reminder
/// as it is, whenever the scan runs.
pub proof fn lemma_sent_stays_sent(s: Seq<ReminderView>, now: Timestamp, i: int)
    requires
        ids_distinct(s),
        0 <= i < s.len(),
        s[i].sent,
    ensures
        scanned(s, now)[i] == s[i],
{
    lemma_scan_settles_each(s, now);
}

/// In a store with distinct identifiers, a sent reminder is listed neither
/// among the due nor among the upcoming reminders, at whatever instant.
pub proof fn lemma_sent_is_never_listed(s: Seq<ReminderView>, i: int, at: Timestamp)
    requires
        ids_distinct(s),
        0 <= i < s.len(),
        s[i].sent,
    ensures
        !has_id(due_at(s, at), s[i].id),
        !has_id(pending_at(s, at), s[i].id),
        !has_id(upcoming_at(s, at), s[i].id),
{
    let id = s[i].id;
    let due = due_at(s, at);
    let pending = pending_at(s, at);
    let upcoming = upcoming_at(s, at);
    assert forall|k: int| 0 <= k < due.len() implies (#[trigger] due[k]).id != id by {
        s.lemma_filter_pred(|r: ReminderView| r.is_due(at), k);
        assert(due.contains(due[k]));
        s.lemma_filter_contains_rev(|r: ReminderView| r.is_due(at), due[k]);
        let m = choose|m: int| 0 <= m < s.len() && s[m] == due[k];
        assert(s[m].id == id ==> m == i);
    }
    assert forall|k: int| 0 <= k < pending.len() implies (#[trigger] pending[k]).id != id by {
        s.lemma_filter_pred(|r: ReminderView| r.is_upcoming(at), k);
        assert(pending.contains(pending[k]));
        s.lemma_filter_contains_rev(|r: ReminderView| r.is_upcoming(at), pending[k]);
        let m = choose|m: int| 0 <= m < s.len() && s[m] == pending[k];
        assert(s[m].id == id ==> m == i);
    }
    assert forall|k: int| 0 <= k < upcoming.len() implies (#[trigger] upcoming[k]).id != id by {
        broadcast use vstd::seq_lib::group_to_multiset_ensures;

        lemma_ascending_by_due(pending);
        assert(upcoming.contains(upcoming[k]));
        assert(upcoming.to_multiset().count(upcoming[k]) > 0);
        assert(pending.contains(upcoming[k]));
        let m = choose|m: int| 0 <= m < pending.len() && pending[m] == upcoming[k];
        assert(pending[m].id != id);
    }
}

/// Once a scan has delivered a due reminder without recurrence, the
/// reminder is sent for good: in a store with distinct identifiers it is
/// listed neither as due nor as upcoming at any later instant, and a later
/// scan leaves it as it is.
pub proof fn lemma_one_shot_never_reappears(
    s: Seq<ReminderView>,
    now: Timestamp,
    i: int,
    later: Timestamp,
)
    requires
        ids_distinct(s),
        0 <= i < s.len(),
        s[i].is_due(now),
        s[i].recurrence is None,
    ensures
        scanned(s, now)[i].sent,
        !has_id(due_at(scanned(s, now), later), s[i].id),
        !has_id(upcoming_at(scanned(s, now), later), s[i].id),
        scanned(scanned(s, now), later)[i] == scanned(s, now)[i],
{
    let t = scanned(s, now);
    lemma_one_shot_is_sent(s, now, i);
    lemma_scan_keeps_ids(s, now);
    lemma_sent_is_never_listed(t, i, later);
    lemma_sent_stays_sent(t, later, i);
}

/// After a scan of a store with distinct identifiers, no reminder awaits
/// delivery at the instant of the scan.
pub proof fn lemma_scan_leaves_nothing_due(s: Seq<ReminderView>, now: Timestamp)
    requires
        ids_distinct(s),
    ensures
        due_at(scanned(s, now), now).len() == 0,
{
    let t = scanned(s, now);
    let due = due_at(t, now);
    lemma_scan_settles_each(s, now);
    if due.len() > 0 {
        t.lemma_filter_pred(|r: ReminderView| r.is_due(now), 0);
        assert(due.contains(due[0]));
        t.lemma_filter_contains_rev(|r: ReminderView| r.is_due(now), due[0]);
        let m = choose|m: int| 0 <= m < t.len() && t[m] == due[0];
        assert(t[m] == after_scan(s[m], now));
        if s[m].is_due(now) && s[m].next_occurrence(now) is Some {
            lemma_next_occurrence_is_first_after(s[m], now);
        }
        assert(!t[m].is_due(now));
    }
}

} // verus!
