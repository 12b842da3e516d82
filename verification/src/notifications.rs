//! Study notifications: reminders that an account sets for itself.

use crate::accounts::Session;
use crate::models::{views_of, CreateReminderRequest, Reminder, ReminderView};
use crate::text::text_view;
use vstd::prelude::*;
use vstd::string::StringExecFns;

verus! {

/// The message of a study notification: the title behind a book, and the
/// memo, where there is one, on a line of its own behind a note.
pub open spec fn notification_text(title: Seq<char>, memo: Option<Seq<char>>) -> Seq<char> {
    match memo {
        Some(note) => "📚 "@ + title + "\n📝 "@ + note,
        None => "📚 "@ + title,
    }
}

/// Writes the request that creates a study notification for the account
/// that is logged in.
pub fn notification_request(
    session: &Session,
    title: &str,
    memo: &Option<String>,
    time: String,
    recurrence: Option<String>,
) -> (request: CreateReminderRequest)
    ensures
        request.message@ == notification_text(title@, text_view(*memo)),
        request.due_time == time,
        text_view(request.username) == Some(session.username@),
        request.recurrence == recurrence,
{
    let headed = "📚 ".to_owned().concat(title);
    let message = match memo {
        Some(note) => headed.concat("\n📝 ").concat(note.as_str()),
        None => headed,
    };
    CreateReminderRequest {
        message,
        due_time: time,
        username: Some(session.username.clone()),
        recurrence,
    }
}

/// The reminders of `reminders` that are tagged with the owner `username`, in order.
pub open spec fn owned_by(reminders: Seq<ReminderView>, username: Seq<char>) -> Seq<ReminderView> {
    reminders.filter(|r: ReminderView| r.username == Some(username))
}

/// Returns the reminders of a listing that belong to the account
/// `username`, in the order of the listing.
pub fn notifications_of(reminders: &Vec<Reminder>, username: &str) -> (own: Vec<Reminder>)
    ensures
        views_of(own@) == owned_by(views_of(reminders@), username@),
{
    let wanted = username.to_owned();
    let ghost all = views_of(reminders@);
    let mut own: Vec<Reminder> = Vec::new();
    let mut i: usize = 0;
    assert(all.take(0) =~= Seq::<ReminderView>::empty());
    assert(owned_by(all.take(0), username@) =~= Seq::<ReminderView>::empty()) by {
        reveal(Seq::filter);
    }
    while i < reminders.len()
        invariant
            i <= reminders.len(),
            wanted@ == username@,
            all == views_of(reminders@),
            views_of(own@) =~= owned_by(all.take(i as int), username@),
        decreases reminders.len() - i,
    {
        let reminder = &reminders[i];
        proof {
            let pred = |r: ReminderView| r.username == Some(username@);
            assert(all.take(i + 1) =~= all.take(i as int).push(reminder@));
            all.take(i as int).lemma_filter_push(reminder@, pred);
        }
        let is_own = match &reminder.username {
            Some(owner) => *owner == wanted,
            None => false,
        };
        if is_own {
            let ghost before = own@;
            own.push(reminder.clone());
            assert(views_of(own@) =~= views_of(before).push(reminder@));
        }
        i += 1;
    }
    assert(all.take(i as int) =~= all);
    own
}

} // verus!
