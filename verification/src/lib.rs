//! Local-first persistence core for an offline-capable study application.
//!
//! The crate models an embedded relational store that mirrors a remote
//! dataset (notes, pages, decks, cards, goals, milestones, logs, settings)
//! and tracks, per record, whether its local state has been communicated to
//! the remote authority.  The heart of the crate is the sync-state machine:
//! what `pending`, `synced`, `conflict` and `deleted` mean, and how
//! timestamps arbitrate ordering.  Every operation carries an exact
//! contract, verified with Verus.

pub mod cards;
pub mod decks;
pub mod errors;
pub mod laws;
pub mod learning_logs;
pub mod migrate;
pub mod milestones;
pub mod notes;
pub mod order;
pub mod pages;
pub mod record;
pub mod schema;
pub mod store;
pub mod study_goals;
pub mod sync;
pub mod table;
pub mod user_settings;
