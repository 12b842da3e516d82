//! A reminder scheduling and delivery engine.
//!
//! The crate keeps a collection of one-shot and recurring reminders, decides
//! which of them are due at a given instant, and applies the transition that
//! follows a delivery: a recurring reminder moves to its next occurrence, a
//! one-shot reminder is marked as sent. Around that core stand the accounts
//! that own reminders and the text files that they upload and tag.
//!
//! Every function carries its contract in its header, and Verus proves the
//! body against it. The exceptions are a handful of private functions that
//! call `chrono`, `uuid` and `bcrypt`: their contracts are taken on trust,
//! and each says so in its documentation.

pub mod accounts;
pub mod files;
mod identity;
pub mod laws;
pub mod models;
pub mod notifications;
pub mod recurrence;
pub mod scanner;
pub mod search;
pub mod service;
pub mod snapshot;
pub mod storage;
pub mod text;
pub mod time;
pub mod user_models;
pub mod user_storage;
