//! The ingress interface: creating a reminder and listing what is to come.
//!
//! A request is checked before anything is stored. The due time has to be a
//! date and time that can be read and written back, the message must not be
//! blank, and a recurrence specifier, where there is one, has to be readable
//! and positive. The first check that fails decides the error.

use crate::models::{
    clone_text, views_of, CreateReminderRequest, CreateReminderResponse, Reminder,
    ReminderListResponse, ReminderView,
};
use crate::recurrence::{recurrence_of, Recurrence, RecurrenceError};
use crate::storage::{upcoming_at, ReminderStorage};
use crate::text::{is_blank, text_is_blank, text_view};
use crate::time::Timestamp;
use vstd::prelude::*;

verus! {

/// Why a request to create a reminder is turned down.
#[derive(Clone, Copy, Debug, PartialEq, Eq, Structural)]
pub enum ValidationError {
    /// The due time is no date and time that can be read and written back.
    InvalidDueTime,
    /// The message is empty or holds white space only.
    EmptyMessage,
    /// The recurrence spells a number of minutes that is zero or negative.
    NonPositiveRecurrence,
    /// The recurrence is neither a keyword nor a number of minutes.
    MalformedRecurrence,
}

impl ValidationError {
    /// The explanation that goes back to the client.
    pub open spec fn text(self) -> Seq<char> {
        match self {
            ValidationError::InvalidDueTime =>
                "Invalid date format. Use ISO 8601 format (e.g., 2025-11-04T15:30:00Z)"@,
            ValidationError::EmptyMessage => "Message cannot be empty"@,
            ValidationError::NonPositiveRecurrence =>
                "Recurrence interval must be a positive number of minutes"@,
            ValidationError::MalformedRecurrence =>
                "Invalid recurrence format. Use 'daily', 'weekly', or a positive number (minutes)"@,
        }
    }

    /// Writes the explanation that goes back to the client.
    pub fn message(&self) -> (m: String)
        ensures
            m@ == self.text(),
    {
        match self {
            ValidationError::InvalidDueTime =>
                "Invalid date format. Use ISO 8601 format (e.g., 2025-11-04T15:30:00Z)".to_owned(),
            ValidationError::EmptyMessage => "Message cannot be empty".to_owned(),
            ValidationError::NonPositiveRecurrence =>
                "Recurrence interval must be a positive number of minutes".to_owned(),
            ValidationError::MalformedRecurrence =>
                "Invalid recurrence format. Use 'daily', 'weekly', or a positive number (minutes)".to_owned(),
        }
    }
}

/// The instant that a due time stands for, where the text can be read as a
/// date and time and the instant can be written back as RFC 3339 text.
pub open spec fn accepted_due_time(text: Seq<char>) -> Option<Timestamp> {
    match Timestamp::parsed(text) {
        Some(instant) => if instant.rfc3339() is Some {
            Some(instant)
        } else {
            None
        },
        None => None,
    }
}

/// The verdict on an optional recurrence specifier: absence is in order,
/// and so is every specifier that [`recurrence_of`] can read.
pub open spec fn recurrence_verdict(recurrence: Option<Seq<char>>) -> Result<(), ValidationError> {
    match recurrence {
        Some(text) => match recurrence_of(text) {
            Ok(_) => Ok(()),
            Err(RecurrenceError::NotPositive) => Err(ValidationError::NonPositiveRecurrence),
            Err(RecurrenceError::Malformed) => Err(ValidationError::MalformedRecurrence),
        },
        None => Ok(()),
    }
}

/// The verdict on a request: the due instant where every check passes, and
/// the error of the first check that fails otherwise. The due time is
/// checked first, the message second, the recurrence last.
pub open spec fn verdict(
    message: Seq<char>,
    due_time: Seq<char>,
    recurrence: Option<Seq<char>>,
) -> Result<Timestamp, ValidationError> {
    match accepted_due_time(due_time) {
        None => Err(ValidationError::InvalidDueTime),
        Some(instant) => if is_blank(message) {
            Err(ValidationError::EmptyMessage)
        } else {
            match recurrence_verdict(recurrence) {
                Ok(_) => Ok(instant),
                Err(error) => Err(error),
            }
        },
    }
}

impl CreateReminderRequest {
    /// The verdict on this request.
    pub open spec fn verdict(self) -> Result<Timestamp, ValidationError> {
        verdict(self.message@, self.due_time@, text_view(self.recurrence))
    }
}

/// Checks an optional recurrence specifier.
pub fn check_recurrence(recurrence: &Option<String>) -> (checked: Result<(), ValidationError>)
    ensures
        checked == recurrence_verdict(text_view(*recurrence)),
{
    match recurrence {
        Some(text) => match Recurrence::parse(text.as_str()) {
            Ok(_) => Ok(()),
            Err(RecurrenceError::NotPositive) => Err(ValidationError::NonPositiveRecurrence),
            Err(RecurrenceError::Malformed) => Err(ValidationError::MalformedRecurrence),
        },
        None => Ok(()),
    }
}

/// Checks a request and returns its due instant with the text of that
/// instant, or the error of the first check that fails.
pub fn validate(request: &CreateReminderRequest) -> (checked: Result<
    (Timestamp, String),
    ValidationError,
>)
    ensures
        match checked {
            Ok((instant, written)) => request.verdict() == Ok::<Timestamp, ValidationError>(instant)
                && instant.rfc3339() == Some(written@),
            Err(error) => request.verdict() == Err::<Timestamp, ValidationError>(error),
        },
{
    let instant = match Timestamp::parse(request.due_time.as_str()) {
        Some(instant) => instant,
        None => { return Err(ValidationError::InvalidDueTime); },
    };
    let written = match instant.to_rfc3339() {
        Some(written) => written,
        None => { return Err(ValidationError::InvalidDueTime); },
    };
    if text_is_blank(request.message.as_str()) {
        return Err(ValidationError::EmptyMessage);
    }
    match check_recurrence(&request.recurrence) {
        Ok(_) => Ok((instant, written)),
        Err(error) => Err(error),
    }
}

/// Creates a reminder from a request and adds it to the store.
///
/// A request that passes every check is stored as an unsent reminder with
/// a fresh identifier, and the answer names that identifier, the message
/// and the due time as RFC 3339 text. A request that fails a check leaves
/// the store as it is.
pub fn create_reminder(store: &mut ReminderStorage, payload: CreateReminderRequest) -> (outcome:
    Result<CreateReminderResponse, ValidationError>)
    ensures
        match outcome {
            Ok(response) => {
                &&& payload.verdict() is Ok
                &&& payload.verdict()->Ok_0.rfc3339() == Some(response.due_time@)
                &&& response.message@ == payload.message@
                &&& final(store)@.len() == old(store)@.len() + 1
                &&& final(store)@.drop_last() == old(store)@
                &&& final(store)@.last().is_valid()
                &&& final(store)@.last() == (ReminderView {
                    id: response.id@,
                    message: payload.message@,
                    due_time: payload.verdict()->Ok_0,
                    username: text_view(payload.username),
                    sent: false,
                    created_at: final(store)@.last().created_at,
                    recurrence: text_view(payload.recurrence),
                })
            },
            Err(error) => {
                &&& payload.verdict() == Err::<Timestamp, ValidationError>(error)
                &&& final(store)@ == old(store)@
            },
        },
{
    let (due_time, written) = match validate(&payload) {
        Ok(checked) => checked,
        Err(error) => { return Err(error); },
    };
    let reminder = Reminder::new(
        payload.message.clone(),
        due_time,
        clone_text(&payload.username),
        clone_text(&payload.recurrence),
    );
    let saved = store.add_reminder(reminder);
    assert(store@.drop_last() =~= old(store)@);
    Ok(CreateReminderResponse { id: saved.id, message: saved.message, due_time: written })
}

/// Lists the reminders that are still to come at `now`, soonest first.
pub fn list_upcoming(store: &ReminderStorage, now: &Timestamp) -> (response: ReminderListResponse)
    ensures
        views_of(response.reminders@) == upcoming_at(store@, *now),
{
    ReminderListResponse { reminders: store.get_upcoming_reminders(now) }
}

/// Reads the clock and lists the reminders that are still to come at that
/// instant, soonest first.
pub fn get_reminders(store: &ReminderStorage) -> (response: ReminderListResponse)
    ensures
        exists|now: Timestamp| views_of(response.reminders@) == #[trigger] upcoming_at(store@, now),
{
    let now = Timestamp::now();
    list_upcoming(store, &now)
}

} // verus!
