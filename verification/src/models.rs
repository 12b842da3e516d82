//! The reminder record and the messages of the ingress interface.

use crate::identity::fresh_id;
use crate::recurrence::{recurrence_of, Recurrence};
use crate::text::{is_blank, text_view};
use crate::time::Timestamp;
use vstd::prelude::*;

verus! {

/// One reminder of the collection.
#[derive(Debug, PartialEq, Eq)]
pub struct Reminder {
    /// Opaque identifier, assigned at creation and never changed.
    pub id: String,
    /// The text to deliver.
    pub message: String,
    /// The instant at which the reminder becomes due.
    pub due_time: Timestamp,
    /// The owner tag, if any.
    pub username: Option<String>,
    /// Set once a reminder has been delivered for good.
    pub sent: bool,
    /// The instant of creation.
    pub created_at: Timestamp,
    /// The recurrence specifier; a reminder without one fires once.
    pub recurrence: Option<String>,
}

/// The mathematical content of a [`Reminder`].
pub struct ReminderView {
    pub id: Seq<char>,
    pub message: Seq<char>,
    pub due_time: Timestamp,
    pub username: Option<Seq<char>>,
    pub sent: bool,
    pub created_at: Timestamp,
    pub recurrence: Option<Seq<char>>,
}

impl View for Reminder {
    type V = ReminderView;

    open spec fn view(&self) -> ReminderView {
        ReminderView {
            id: self.id@,
            message: self.message@,
            due_time: self.due_time,
            username: text_view(self.username),
            sent: self.sent,
            created_at: self.created_at,
            recurrence: text_view(self.recurrence),
        }
    }
}

impl ReminderView {
    /// The reminder awaits delivery at `now`: it is unsent and its due time
    /// is `now` or earlier.
    pub open spec fn is_due(self, now: Timestamp) -> bool {
        !self.sent && self.due_time.is_at_or_before(now)
    }

    /// The reminder is still to come at `now`: it is unsent and its due time
    /// is strictly later than `now`.
    pub open spec fn is_upcoming(self, now: Timestamp) -> bool {
        !self.sent && self.due_time.is_after(now)
    }

    /// The reminder is as the ingress interface admits it: its message is
    /// not blank, and its recurrence specifier, where it has one, can be read.
    pub open spec fn is_valid(self) -> bool {
        &&& !is_blank(self.message)
        &&& self.recurrence matches Some(text) ==> recurrence_of(text) is Ok
    }

    /// The recurrence of the reminder, where it has a specifier that can be read.
    pub open spec fn recurrence_rule(self) -> Option<Recurrence> {
        match self.recurrence {
            Some(text) => match recurrence_of(text) {
                Ok(rule) => Some(rule),
                Err(_) => None,
            },
            None => None,
        }
    }

    /// The first occurrence strictly after `now`.
    ///
    /// `None` for a reminder without recurrence, for a specifier that cannot
    /// be read or gives no positive period, and for an occurrence beyond the
    /// last second that a [`Timestamp`] can hold.
    pub open spec fn next_occurrence(self, now: Timestamp) -> Option<Timestamp> {
        match self.recurrence_rule() {
            Some(rule) => rule.next_occurrence(self.due_time, now),
            None => None,
        }
    }

    /// The reminder after its final delivery.
    pub open spec fn marked_sent(self) -> ReminderView {
        ReminderView { sent: true, ..self }
    }

    /// The reminder moved to `next_due_time` and awaiting delivery again.
    pub open spec fn rescheduled(self, next_due_time: Timestamp) -> ReminderView {
        ReminderView { due_time: next_due_time, sent: false, ..self }
    }
}

impl Clone for Reminder {
    fn clone(&self) -> (copy: Reminder)
        ensures
            copy == *self,
    {
        Reminder {
            id: self.id.clone(),
            message: self.message.clone(),
            due_time: self.due_time,
            username: clone_text(&self.username),
            sent: self.sent,
            created_at: self.created_at,
            recurrence: clone_text(&self.recurrence),
        }
    }
}

/// Copies an optional text.
pub fn clone_text(text: &Option<String>) -> (copy: Option<String>)
    ensures
        copy == *text,
{
    match text {
        Some(t) => Some(t.clone()),
        None => None,
    }
}

impl Reminder {
    /// Creates an unsent reminder with a fresh random identifier, created now.
    ///
    /// The identifier and the creation time come from outside and are not
    /// determined by the arguments; everything else is.
    pub fn new(
        message: String,
        due_time: Timestamp,
        username: Option<String>,
        recurrence: Option<String>,
    ) -> (reminder: Reminder)
        ensures
            reminder.message == message,
            reminder.due_time == due_time,
            reminder.username == username,
            !reminder.sent,
            reminder.recurrence == recurrence,
    {
        let id = fresh_id();
        let created_at = Timestamp::now();
        Reminder::with_identity(id, created_at, message, due_time, username, recurrence)
    }

    /// Creates an unsent reminder with the given identifier and creation time.
    pub fn with_identity(
        id: String,
        created_at: Timestamp,
        message: String,
        due_time: Timestamp,
        username: Option<String>,
        recurrence: Option<String>,
    ) -> (reminder: Reminder)
        ensures
            reminder == (Reminder {
                id,
                message,
                due_time,
                username,
                sent: false,
                created_at,
                recurrence,
            }),
    {
        Reminder { id, message, due_time, username, sent: false, created_at, recurrence }
    }

    /// Computes the first occurrence of a recurring reminder that lies
    /// strictly after `now`, counted in whole periods from the stored due
    /// time. Occurrences that were missed are skipped.
    pub fn calculate_next_occurrence(&self, now: &Timestamp) -> (next: Option<Timestamp>)
        ensures
            next == self@.next_occurrence(*now),
    {
        match &self.recurrence {
            Some(text) => match Recurrence::parse(text.as_str()) {
                Ok(rule) => rule.next_after(&self.due_time, now),
                Err(_) => None,
            },
            None => None,
        }
    }
}

/// What a client sends to create a reminder.
#[derive(Debug)]
pub struct CreateReminderRequest {
    pub message: String,
    /// The due time as RFC 3339 text.
    pub due_time: String,
    pub username: Option<String>,
    pub recurrence: Option<String>,
}

/// What a client gets back for a reminder that was created.
#[derive(Debug)]
pub struct CreateReminderResponse {
    pub id: String,
    pub message: String,
    /// The due time as RFC 3339 text.
    pub due_time: String,
}

/// The answer to a listing of reminders.
#[derive(Debug)]
pub struct ReminderListResponse {
    pub reminders: Vec<Reminder>,
}

/// The mathematical contents of the reminders in `reminders`, in order.
pub open spec fn views_of(reminders: Seq<Reminder>) -> Seq<ReminderView> {
    reminders.map_values(|r: Reminder| r@)
}

} // verus!
