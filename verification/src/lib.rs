//! A personal tracker for job-search leads: companies, the positions offered
//! there, and a timeline of interactions with each one.
//!
//! The heart of the crate is the in-memory store ([`store::Leads`]) mapping a
//! company to its open positions ([`lead::Lead`]), each carrying notes, an
//! ascending status timeline, and todo/wait task lists. Every mutating
//! operation states exactly how the store changes; persistence and the
//! command line live outside this crate and hand it plain values.

pub mod command;
pub mod error;
pub mod lead;
pub mod names;
pub mod store;
pub mod time;
pub mod timeline;
