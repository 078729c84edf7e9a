//! Newsletter delivery core: idempotent publishing, a transactional outbox and
//! the dispatch worker that drains it, with their contracts proved.
//!
//! A publish request carries an idempotency key. The first request under a
//! key creates the issue and queues one delivery task per confirmed
//! subscriber, all in one unit of work, and saves its response under the
//! key; every later request under that key is handed the saved response and
//! writes nothing. Workers claim one task at a time, hand it to the
//! transport and resolve it: a delivered task is deleted, a failed one is
//! kept for a later try until its retry budget is used up.
//!
//! The handlers and the worker are transition functions: they take what
//! happened and say what to do next, and whoever runs them performs the
//! store and transport operations. `store`, `delivery_queue` and their
//! neighbours hold the persisted tables as plain values, which is where the
//! guarantees on whole requests and whole iterations are stated and proved:
//! see `publication` and `issue_delivery_worker`.

pub mod authentication;
pub mod delivery_queue;
pub mod domain;
pub mod idempotency;
pub mod identifiers;
pub mod issue_delivery_worker;
pub mod lookup;
pub mod newsletter_issues;
pub mod publication;
pub mod routes;
pub mod store;
pub mod subscriptions;
