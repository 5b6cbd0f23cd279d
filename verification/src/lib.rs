//! Core of a small personal todo/notes utility: the reminder scheduling
//! engine and the one-time migration gate that imports records from a
//! legacy JSON document store into a relational store.
//!
//! The host application supplies persistence and notification delivery;
//! this crate holds the verified logic: which todos a sweep selects, how
//! alerts are composed and deduplicated, and what the migration writes.

pub mod migration;
pub mod models;
pub mod rfc3339;
pub mod scheduler;
pub mod store;
