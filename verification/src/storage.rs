//! The reminder store: the collection of all reminders and its operations.
//!
//! The store is a sequence of reminders in the order in which they were
//! added. Reading takes `&self` and changing takes `&mut self`, so a change
//! excludes every other access while any number of reads may go on together.
//! Every operation is described by what it does to the sequence of
//! [`ReminderView`]s that the store stands for.

use crate::models::{views_of, Reminder, ReminderView};
use crate::search::{first_index, has_any, lemma_first_index, lemma_first_index_is};
use crate::time::Timestamp;
use vstd::prelude::*;

verus! {

/// The test for a reminder with identifier `id`.
pub open spec fn identified_by(id: Seq<char>) -> spec_fn(ReminderView) -> bool {
    |r: ReminderView| r.id == id
}

/// The first place in `s` that holds a reminder with identifier `id`, if any.
pub open spec fn position_of(s: Seq<ReminderView>, id: Seq<char>) -> Option<int> {
    first_index(s, identified_by(id))
}

/// Some reminder in `s` has identifier `id`.
pub open spec fn has_id(s: Seq<ReminderView>, id: Seq<char>) -> bool {
    has_any(s, identified_by(id))
}

/// No two reminders in `s` share an identifier.
pub open spec fn ids_distinct(s: Seq<ReminderView>) -> bool {
    forall|i: int, j: int|
        0 <= i < s.len() && 0 <= j < s.len() && i != j ==> (#[trigger] s[i]).id != (
        #[trigger] s[j]).id
}

/// `s` after the first reminder with identifier `id` was marked as sent;
/// `s` itself where no reminder has that identifier.
pub open spec fn with_sent(s: Seq<ReminderView>, id: Seq<char>) -> Seq<ReminderView> {
    match position_of(s, id) {
        Some(i) => s.update(i, s[i].marked_sent()),
        None => s,
    }
}

/// `s` after the first reminder with identifier `id` was moved to
/// `next_due_time` and set to await delivery; `s` itself where no reminder
/// has that identifier.
pub open spec fn with_due_time(
    s: Seq<ReminderView>,
    id: Seq<char>,
    next_due_time: Timestamp,
) -> Seq<ReminderView> {
    match position_of(s, id) {
        Some(i) => s.update(i, s[i].rescheduled(next_due_time)),
        None => s,
    }
}

/// The reminders of `s` that await delivery at `now`, in the order of `s`.
pub open spec fn due_at(s: Seq<ReminderView>, now: Timestamp) -> Seq<ReminderView> {
    s.filter(|r: ReminderView| r.is_due(now))
}

/// The reminders of `s` that are still to come at `now`, in the order of `s`.
pub open spec fn pending_at(s: Seq<ReminderView>, now: Timestamp) -> Seq<ReminderView> {
    s.filter(|r: ReminderView| r.is_upcoming(now))
}

/// `sorted` with `r` put behind every reminder that is due no later than `r`.
pub open spec fn insert_by_due(sorted: Seq<ReminderView>, r: ReminderView) -> Seq<ReminderView>
    decreases sorted.len(),
{
    if sorted.len() > 0 && sorted.last().due_time.is_after(r.due_time) {
        insert_by_due(sorted.drop_last(), r).push(sorted.last())
    } else {
        sorted.push(r)
    }
}

/// The reminders of `s` in ascending order of due time; reminders with the
/// same due time keep the order they have in `s`.
pub open spec fn ascending_by_due(s: Seq<ReminderView>) -> Seq<ReminderView>
    decreases s.len(),
{
    if s.len() == 0 {
        s
    } else {
        insert_by_due(ascending_by_due(s.drop_last()), s.last())
    }
}

/// No reminder of `s` is due later than one that follows it.
pub open spec fn sorted_by_due(s: Seq<ReminderView>) -> bool {
    forall|i: int, j: int|
        0 <= i < j < s.len() ==> (#[trigger] s[i]).due_time.is_at_or_before(
            (#[trigger] s[j]).due_time,
        )
}

/// The reminders of `s` that are still to come at `now`, in ascending order
/// of due time.
pub open spec fn upcoming_at(s: Seq<ReminderView>, now: Timestamp) -> Seq<ReminderView> {
    ascending_by_due(pending_at(s, now))
}

/// Putting `r` at place `p` is what [`insert_by_due`] does, where everything
/// from `p` on is due after `r` and the reminder before `p` is not.
pub proof fn lemma_insert_by_due_at(sorted: Seq<ReminderView>, r: ReminderView, p: int)
    requires
        0 <= p <= sorted.len(),
        forall|j: int| p <= j < sorted.len() ==> (#[trigger] sorted[j]).due_time.is_after(r.due_time),
        p > 0 ==> !sorted[p - 1].due_time.is_after(r.due_time),
    ensures
        insert_by_due(sorted, r) == sorted.insert(p, r),
    decreases sorted.len() - p,
{
    if p == sorted.len() {
        assert(sorted.push(r) =~= sorted.insert(p, r));
    } else {
        assert(sorted.last().due_time.is_after(r.due_time));
        lemma_insert_by_due_at(sorted.drop_last(), r, p);
        assert(sorted.drop_last().insert(p, r).push(sorted.last()) =~= sorted.insert(p, r));
    }
}

/// [`insert_by_due`] adds exactly `r`, and keeps a sorted sequence sorted.
pub proof fn lemma_insert_by_due(sorted: Seq<ReminderView>, r: ReminderView)
    ensures
        insert_by_due(sorted, r).len() == sorted.len() + 1,
        insert_by_due(sorted, r).to_multiset() == sorted.to_multiset().insert(r),
        sorted_by_due(sorted) ==> sorted_by_due(insert_by_due(sorted, r)),
    decreases sorted.len(),
{
    broadcast use vstd::seq_lib::group_to_multiset_ensures;

    if sorted.len() > 0 && sorted.last().due_time.is_after(r.due_time) {
        let front = sorted.drop_last();
        let placed = insert_by_due(front, r);
        lemma_insert_by_due(front, r);
        assert(sorted =~= front.push(sorted.last()));
        assert(placed.push(sorted.last()).to_multiset() =~= sorted.to_multiset().insert(r));
        if sorted_by_due(sorted) {
            assert(sorted_by_due(front)) by {
                assert forall|i: int, j: int| 0 <= i < j < front.len() implies (
                #[trigger] front[i]).due_time.is_at_or_before((#[trigger] front[j]).due_time) by {
                    assert(front[i] == sorted[i] && front[j] == sorted[j]);
                }
            }
            // Every reminder of `placed` is `r` or a reminder of `front`,
            // and none of them is due after the last of `sorted`.
            assert forall|i: int| 0 <= i < placed.len() implies (
            #[trigger] placed[i]).due_time.is_at_or_before(sorted.last().due_time) by {
                assert(placed.to_multiset().count(placed[i]) > 0);
                if placed[i] != r {
                    assert(front.to_multiset().count(placed[i]) > 0);
                    assert(front.contains(placed[i]));
                    let k = choose|k: int| 0 <= k < front.len() && front[k] == placed[i];
                    assert(sorted[k] == placed[i]);
                    assert(sorted[k].due_time.is_at_or_before(sorted[sorted.len() - 1].due_time));
                }
            }
        }
    } else {
        if sorted_by_due(sorted) {
            let grown = sorted.push(r);
            assert forall|i: int, j: int| 0 <= i < j < grown.len() implies (
            #[trigger] grown[i]).due_time.is_at_or_before((#[trigger] grown[j]).due_time) by {
                if j == sorted.len() {
                    assert(grown[i] == sorted[i]);
                    assert(sorted[i].due_time.is_at_or_before(sorted[sorted.len() - 1].due_time));
                } else {
                    assert(grown[i] == sorted[i] && grown[j] == sorted[j]);
                }
            }
        }
    }
}

/// [`ascending_by_due`] rearranges its argument into ascending order of due time.
pub proof fn lemma_ascending_by_due(s: Seq<ReminderView>)
    ensures
        ascending_by_due(s).len() == s.len(),
        ascending_by_due(s).to_multiset() == s.to_multiset(),
        sorted_by_due(ascending_by_due(s)),
    decreases s.len(),
{
    broadcast use vstd::seq_lib::group_to_multiset_ensures;

    if s.len() > 0 {
        lemma_ascending_by_due(s.drop_last());
        lemma_insert_by_due(ascending_by_due(s.drop_last()), s.last());
        assert(s =~= s.drop_last().push(s.last()));
    }
}

/// The collection of all reminders.
pub struct ReminderStorage {
    reminders: Vec<Reminder>,
}

impl View for ReminderStorage {
    type V = Seq<ReminderView>;

    closed spec fn view(&self) -> Seq<ReminderView> {
        views_of(self.reminders@)
    }
}

impl ReminderStorage {
    /// Makes a store that holds the reminders of a snapshot, in their order.
    /// An empty snapshot gives an empty store.
    pub fn new(reminders: Vec<Reminder>) -> (store: ReminderStorage)
        ensures
            store@ == views_of(reminders@),
    {
        ReminderStorage { reminders }
    }

    /// Appends `reminder` and returns the stored copy.
    pub fn add_reminder(&mut self, reminder: Reminder) -> (stored: Reminder)
        ensures
            final(self)@ == old(self)@.push(reminder@),
            stored == reminder,
    {
        let stored = reminder.clone();
        self.reminders.push(reminder);
        assert(views_of(self.reminders@) =~= views_of(old(self).reminders@).push(reminder@));
        stored
    }

    /// Returns the reminders that await delivery at `now`: those that are
    /// unsent and due at `now` or earlier, in the order of the store.
    pub fn get_due_reminders(&self, now: &Timestamp) -> (due: Vec<Reminder>)
        ensures
            views_of(due@) == due_at(self@, *now),
    {
        let mut due: Vec<Reminder> = Vec::new();
        let mut i: usize = 0;
        assert(self@.take(0) =~= Seq::<ReminderView>::empty());
        assert(due_at(self@.take(0), *now) =~= Seq::<ReminderView>::empty()) by {
            reveal(Seq::filter);
        }
        while i < self.reminders.len()
            invariant
                i <= self.reminders.len(),
                views_of(due@) =~= due_at(self@.take(i as int), *now),
            decreases self.reminders.len() - i,
        {
            let reminder = &self.reminders[i];
            proof {
                let pred = |r: ReminderView| r.is_due(*now);
                assert(self@.take(i + 1) =~= self@.take(i as int).push(reminder@));
                self@.take(i as int).lemma_filter_push(reminder@, pred);
            }
            if !reminder.sent && reminder.due_time.at_or_before(now) {
                let ghost before = due@;
                due.push(reminder.clone());
                assert(views_of(due@) =~= views_of(before).push(reminder@));
            }
            i += 1;
        }
        assert(self@.take(i as int) =~= self@);
        due
    }

    /// Returns the reminders that are still to come at `now`: those that are
    /// unsent and due strictly after `now`, in ascending order of due time.
    /// Reminders with the same due time keep the order of the store.
    pub fn get_upcoming_reminders(&self, now: &Timestamp) -> (upcoming: Vec<Reminder>)
        ensures
            views_of(upcoming@) == upcoming_at(self@, *now),
            forall|i: int|
                0 <= i < upcoming.len() ==> !(#[trigger] upcoming[i]).sent
                    && upcoming[i].due_time.is_after(*now),
            forall|i: int, j: int|
                0 <= i < j < upcoming.len() ==> (#[trigger] upcoming[i]).due_time.is_at_or_before(
                    (#[trigger] upcoming[j]).due_time,
                ),
            views_of(upcoming@).to_multiset() == pending_at(self@, *now).to_multiset(),
    {
        let mut upcoming: Vec<Reminder> = Vec::new();
        let mut i: usize = 0;
        assert(self@.take(0) =~= Seq::<ReminderView>::empty());
        assert(pending_at(self@.take(0), *now) =~= Seq::<ReminderView>::empty()) by {
            reveal(Seq::filter);
        }
        while i < self.reminders.len()
            invariant
                i <= self.reminders.len(),
                views_of(upcoming@) =~= upcoming_at(self@.take(i as int), *now),
                forall|k: int|
                    0 <= k < upcoming.len() ==> !(#[trigger] upcoming[k]).sent
                        && upcoming[k].due_time.is_after(*now),
            decreases self.reminders.len() - i,
        {
            let reminder = &self.reminders[i];
            proof {
                let pred = |r: ReminderView| r.is_upcoming(*now);
                assert(self@.take(i + 1) =~= self@.take(i as int).push(reminder@));
                self@.take(i as int).lemma_filter_push(reminder@, pred);
            }
            if !reminder.sent && reminder.due_time.after(now) {
                let ghost before = upcoming@;
                let ghost pending = pending_at(self@.take(i as int), *now);
                assert(pending.push(reminder@).drop_last() =~= pending);
                let mut p: usize = upcoming.len();
                while p > 0 && upcoming[p - 1].due_time.after(&reminder.due_time)
                    invariant
                        p <= upcoming.len(),
                        forall|j: int|
                            p <= j < upcoming.len() ==> (#[trigger] upcoming[j]).due_time.is_after(
                                reminder.due_time,
                            ),
                    decreases p,
                {
                    p -= 1;
                }
                proof {
                    assert forall|j: int| p <= j < before.len() implies (#[trigger] views_of(
                        before,
                    )[j]).due_time.is_after(reminder@.due_time) by {
                        assert(upcoming[j].due_time.is_after(reminder.due_time));
                    }
                    lemma_insert_by_due_at(views_of(before), reminder@, p as int);
                }
                upcoming.insert(p, reminder.clone());
                assert(views_of(upcoming@) =~= views_of(before).insert(p as int, reminder@));
            }
            i += 1;
        }
        assert(self@.take(i as int) =~= self@);
        proof {
            lemma_ascending_by_due(pending_at(self@, *now));
            assert forall|i: int, j: int| 0 <= i < j < upcoming.len() implies (
            #[trigger] upcoming[i]).due_time.is_at_or_before((#[trigger] upcoming[j]).due_time) by {
                assert(views_of(upcoming@)[i].due_time.is_at_or_before(
                    views_of(upcoming@)[j].due_time,
                ));
            }
        }
        upcoming
    }

    /// Returns a copy of every reminder, in the order of the store.
    pub fn get_all_reminders(&self) -> (all: Vec<Reminder>)
        ensures
            views_of(all@) == self@,
    {
        let mut all: Vec<Reminder> = Vec::new();
        let mut i: usize = 0;
        while i < self.reminders.len()
            invariant
                i <= self.reminders.len(),
                views_of(all@) =~= self@.take(i as int),
            decreases self.reminders.len() - i,
        {
            let ghost before = all@;
            all.push(self.reminders[i].clone());
            assert(views_of(all@) =~= views_of(before).push(self@[i as int]));
            i += 1;
        }
        assert(self@.take(i as int) =~= self@);
        all
    }

    /// Finds the first reminder with identifier `id`.
    fn find(&self, id: &str) -> (place: Option<usize>)
        ensures
            position_of(self@, id@) == match place {
                Some(i) => Some(i as int),
                None => None,
            },
            place matches Some(i) ==> i < self.reminders.len(),
    {
        let wanted = id.to_owned();
        let mut i: usize = 0;
        while i < self.reminders.len()
            invariant
                i <= self.reminders.len(),
                wanted@ == id@,
                forall|j: int| 0 <= j < i ==> !identified_by(id@)(#[trigger] self@[j]),
            decreases self.reminders.len() - i,
        {
            if self.reminders[i].id == wanted {
                proof {
                    assert(identified_by(id@)(self@[i as int]));
                    lemma_first_index_is(self@, identified_by(id@), i as int);
                }
                return Some(i);
            }
            i += 1;
        }
        proof {
            lemma_first_index(self@, identified_by(id@));
        }
        None
    }

    /// Marks the first reminder with identifier `id` as sent and tells
    /// whether there was one. A store without such a reminder stays as it is.
    pub fn mark_as_sent(&mut self, id: &str) -> (found: bool)
        ensures
            final(self)@ == with_sent(old(self)@, id@),
            found == has_id(old(self)@, id@),
    {
        proof {
            lemma_first_index(self@, identified_by(id@));
        }
        match self.find(id) {
            Some(i) => {
                let mut reminder = self.reminders[i].clone();
                reminder.sent = true;
                self.reminders.set(i, reminder);
                assert(self@ =~= old(self)@.update(i as int, old(self)@[i as int].marked_sent()));
                true
            },
            None => false,
        }
    }

    /// Moves the first reminder with identifier `id` to `next_due_time`,
    /// sets it to await delivery, and tells whether there was one. A store
    /// without such a reminder stays as it is.
    pub fn reschedule_reminder(&mut self, id: &str, next_due_time: Timestamp) -> (found: bool)
        ensures
            final(self)@ == with_due_time(old(self)@, id@, next_due_time),
            found == has_id(old(self)@, id@),
    {
        proof {
            lemma_first_index(self@, identified_by(id@));
        }
        match self.find(id) {
            Some(i) => {
                let mut reminder = self.reminders[i].clone();
                reminder.due_time = next_due_time;
                reminder.sent = false;
                self.reminders.set(i, reminder);
                assert(self@ =~= old(self)@.update(
                    i as int,
                    old(self)@[i as int].rescheduled(next_due_time),
                ));
                true
            },
            None => false,
        }
    }
}

} // verus!
