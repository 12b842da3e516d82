//! The due-reminder scanner.
//!
//! On every tick the scanner takes the reminders that await delivery, hands
//! each of them to the delivery sink, and then settles it: a reminder with a
//! next occurrence moves there, any other reminder is marked as sent. The
//! functions here make the decisions and change the store; waiting for the
//! tick and delivering are left to the caller.

use crate::models::{views_of, Reminder, ReminderView};
use crate::search::{is_first, lemma_first_index_is};
use crate::storage::{
    due_at, identified_by, ids_distinct, with_due_time, with_sent, ReminderStorage,
};
use crate::time::Timestamp;
use vstd::prelude::*;

verus! {

/// What becomes of a due reminder once it has been delivered.
#[derive(Clone, Copy, Debug, PartialEq, Eq, Structural)]
pub enum Transition {
    /// The reminder recurs and moves to this instant.
    Rescheduled(Timestamp),
    /// The reminder has no next occurrence and is marked as sent.
    MarkedSent,
}

/// A due reminder as it was handed out for delivery, with what became of it.
#[derive(Debug)]
pub struct Delivery {
    /// The reminder as it stood when it was found due.
    pub reminder: Reminder,
    /// What the scanner did with it in the store.
    pub transition: Transition,
}

/// What becomes of the due reminder `r` when it is settled at `now`.
pub open spec fn transition_of(r: ReminderView, now: Timestamp) -> Transition {
    match r.next_occurrence(now) {
        Some(next) => Transition::Rescheduled(next),
        None => Transition::MarkedSent,
    }
}

/// The store `s` after the due reminder `r` was settled at `now`.
pub open spec fn settled(s: Seq<ReminderView>, r: ReminderView, now: Timestamp) -> Seq<
    ReminderView,
> {
    match r.next_occurrence(now) {
        Some(next) => with_due_time(s, r.id, next),
        None => with_sent(s, r.id),
    }
}

/// The store `s` after the reminders of `due` were settled at `now`, one
/// after the other.
pub open spec fn settled_all(
    s: Seq<ReminderView>,
    due: Seq<ReminderView>,
    now: Timestamp,
) -> Seq<ReminderView>
    decreases due.len(),
{
    if due.len() == 0 {
        s
    } else {
        settled(settled_all(s, due.drop_last(), now), due.last(), now)
    }
}

/// The store `s` after one scan at `now`: every reminder that awaited
/// delivery at `now` was settled, in the order of the store.
pub open spec fn scanned(s: Seq<ReminderView>, now: Timestamp) -> Seq<ReminderView> {
    settled_all(s, due_at(s, now), now)
}

/// What one scan at `now` makes of the single reminder `r`: a reminder that
/// awaits delivery moves to its next occurrence or, without one, is marked
/// as sent; any other reminder stays as it is.
pub open spec fn after_scan(r: ReminderView, now: Timestamp) -> ReminderView {
    if r.is_due(now) {
        match r.next_occurrence(now) {
            Some(next) => r.rescheduled(next),
            None => r.marked_sent(),
        }
    } else {
        r
    }
}

/// Settling the due reminders among the first `n` of a store with distinct
/// identifiers changes each of those `n` as a scan changes a single
/// reminder, and leaves the others as they are.
proof fn lemma_scan_prefix(s: Seq<ReminderView>, now: Timestamp, n: int)
    requires
        ids_distinct(s),
        0 <= n <= s.len(),
    ensures
        settled_all(s, due_at(s.take(n), now), now).len() == s.len(),
        forall|i: int|
            0 <= i < s.len() ==> (#[trigger] settled_all(s, due_at(s.take(n), now), now)[i]) == (
            if i < n {
                after_scan(s[i], now)
            } else {
                s[i]
            }),
    decreases n,
{
    let pred = |r: ReminderView| r.is_due(now);
    if n == 0 {
        assert(s.take(0) =~= Seq::<ReminderView>::empty());
        assert(due_at(s.take(0), now) =~= Seq::<ReminderView>::empty()) by {
            reveal(Seq::filter);
        }
    } else {
        lemma_scan_prefix(s, now, n - 1);
        let x = s[n - 1];
        let shorter = due_at(s.take(n - 1), now);
        let before = settled_all(s, shorter, now);
        assert(s.take(n) =~= s.take(n - 1).push(x));
        s.take(n - 1).lemma_filter_push(x, pred);
        if x.is_due(now) {
            assert(due_at(s.take(n), now) == shorter.push(x));
            assert(shorter.push(x).drop_last() =~= shorter);
            assert(settled_all(s, due_at(s.take(n), now), now) == settled(before, x, now));
            assert(is_first(before, identified_by(x.id), n - 1)) by {
                assert(before[n - 1] == s[n - 1]);
                assert forall|j: int| 0 <= j < n - 1 implies !identified_by(x.id)(
                    #[trigger] before[j],
                ) by {
                    assert(before[j] == after_scan(s[j], now));
                    assert(s[j].id != s[n - 1].id);
                }
            }
            lemma_first_index_is(before, identified_by(x.id), n - 1);
        }
    }
}

/// In a store with distinct identifiers, one scan changes every reminder as
/// [`after_scan`] says: a reminder that awaits delivery is rescheduled to
/// its next occurrence or, where it has none, marked as sent; every other
/// reminder stays as it is.
pub proof fn lemma_scan_settles_each(s: Seq<ReminderView>, now: Timestamp)
    requires
        ids_distinct(s),
    ensures
        scanned(s, now).len() == s.len(),
        forall|i: int| 0 <= i < s.len() ==> (#[trigger] scanned(s, now)[i]) == after_scan(s[i], now),
{
    lemma_scan_prefix(s, now, s.len() as int);
    assert(s.take(s.len() as int) =~= s);
}

/// Settles one due reminder after its delivery: moves it to its next
/// occurrence after `now` where it has one, and marks it as sent otherwise.
pub fn settle(store: &mut ReminderStorage, reminder: &Reminder, now: &Timestamp) -> (transition:
    Transition)
    ensures
        transition == transition_of(reminder@, *now),
        final(store)@ == settled(old(store)@, reminder@, *now),
{
    match reminder.calculate_next_occurrence(now) {
        Some(next) => {
            store.reschedule_reminder(reminder.id.as_str(), next);
            Transition::Rescheduled(next)
        },
        None => {
            store.mark_as_sent(reminder.id.as_str());
            Transition::MarkedSent
        },
    }
}

/// Runs the store through one scan at `now`: settles every reminder that
/// awaits delivery, in the order of the store, and returns each of them as
/// it stood before, with what became of it.
///
/// Where the identifiers of the store are distinct, every reminder ends as
/// [`after_scan`] says.
pub fn process_due_reminders(store: &mut ReminderStorage, now: &Timestamp) -> (deliveries: Vec<
    Delivery,
>)
    ensures
        final(store)@ == scanned(old(store)@, *now),
        ids_distinct(old(store)@) ==> final(store)@.len() == old(store)@.len() && forall|i: int|
            0 <= i < old(store)@.len() ==> (#[trigger] final(store)@[i]) == after_scan(
                old(store)@[i],
                *now,
            ),
        deliveries.len() == due_at(old(store)@, *now).len(),
        forall|i: int|
            0 <= i < deliveries.len() ==> (#[trigger] deliveries[i]).reminder@ == due_at(
                old(store)@,
                *now,
            )[i] && deliveries[i].transition == transition_of(due_at(old(store)@, *now)[i], *now),
{
    let ghost initial = store@;
    let due = store.get_due_reminders(now);
    let ghost due_views = views_of(due@);
    let mut deliveries: Vec<Delivery> = Vec::new();
    let mut i: usize = 0;
    assert(due_views.take(0) =~= Seq::<ReminderView>::empty());
    while i < due.len()
        invariant
            i <= due.len(),
            due_views == views_of(due@),
            due_views == due_at(initial, *now),
            store@ == settled_all(initial, due_views.take(i as int), *now),
            deliveries.len() == i,
            forall|k: int|
                0 <= k < i ==> (#[trigger] deliveries[k]).reminder@ == due_views[k]
                    && deliveries[k].transition == transition_of(due_views[k], *now),
        decreases due.len() - i,
    {
        let reminder = due[i].clone();
        assert(reminder@ == due_views[i as int]);
        let transition = settle(store, &reminder, now);
        deliveries.push(Delivery { reminder, transition });
        assert(due_views.take(i + 1).drop_last() =~= due_views.take(i as int));
        i += 1;
    }
    assert(due_views.take(i as int) =~= due_views);
    proof {
        if ids_distinct(initial) {
            lemma_scan_settles_each(initial, *now);
        }
    }
    deliveries
}

/// Reads the clock and runs the store through one scan at that instant.
/// Returns the instant with the deliveries of [`process_due_reminders`].
pub fn scan_now(store: &mut ReminderStorage) -> (outcome: (Timestamp, Vec<Delivery>))
    ensures
        final(store)@ == scanned(old(store)@, outcome.0),
        outcome.1.len() == due_at(old(store)@, outcome.0).len(),
        forall|i: int|
            0 <= i < outcome.1.len() ==> (#[trigger] outcome.1[i]).reminder@ == due_at(
                old(store)@,
                outcome.0,
            )[i] && outcome.1[i].transition == transition_of(
                due_at(old(store)@, outcome.0)[i],
                outcome.0,
            ),
{
    let now = Timestamp::now();
    let deliveries = process_due_reminders(store, &now);
    (now, deliveries)
}

} // verus!
