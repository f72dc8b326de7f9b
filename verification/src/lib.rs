//! A scheduled bulk-deletion engine for chat channels.
//!
//! Each channel may carry one active retention schedule. A periodic tick takes a
//! snapshot of the active schedules and, channel by channel, selects the messages
//! that have outlived their schedule and deletes them in bounded batches. The
//! crate holds the rules and their proofs; reading a channel's history, issuing
//! delete requests and reaching the database are left to the caller, who feeds
//! the results back in as plain values.

pub mod batching;
pub mod commands;
pub mod deps;
pub mod handler;
pub mod message_deletion;
pub mod notice;
pub mod persistence;
pub mod selection;
pub mod time;
