//! Event-log engine of a personal time-tracking journal.
//!
//! The journal is an ordered list of timestamped start and stop events. This
//! crate holds the event model, the resolution of time windows, the event
//! filter, the pairing of events into worked time with its break rule, the
//! resolver for repeated events, and the decisions behind the tracking
//! commands, and the words in which all this is reported. Every function is
//! verified against its contract. The calls into the calendar library and
//! into the text functions of the standard library stand behind small
//! trusted wrappers in `clock` and `text`.

pub mod cleanup;
pub mod clock;
pub mod days;
pub mod event;
pub mod filter;
pub mod journal;
pub mod report;
pub mod settings;
pub mod text;
pub mod track;
pub mod window;
pub mod worktime;
