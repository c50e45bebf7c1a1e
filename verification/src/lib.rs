//! A job-queue broker core: clients submit units of work into named queues
//! and workers retrieve them, with the broker responsible for ordering,
//! availability, and durability across backend failures.
//!
//! - [`store`] models the queue store: queue definitions, queued jobs, and
//!   identifier assignment, with idempotent upsert and distinct error kinds.
//! - [`staging`] models the job staging store: the write-ahead records that
//!   make a submission recoverable when a commit fails.
//! - [`broker`] holds the coordinators: submission as a strict stage /
//!   commit / clean-up sequence, recovery of staged submissions, and
//!   bounded-wait ("long poll") retrieval decisions.
//! - [`payload`] models client payloads at the one level the broker reads:
//!   top-level object fields, everything deeper carried through untouched.
//! - [`error`] is the error taxonomy; kinds are never collapsed, so the
//!   transport layer can pick the right status for each.

pub mod broker;
pub mod error;
pub mod payload;
pub mod staging;
pub mod store;

pub use error::ErrorKind;
