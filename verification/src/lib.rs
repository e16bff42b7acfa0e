//! Reconciliation core of a dynamic-DNS updater.
//!
//! The crate decides, from plain values, what an updater run does: it
//! validates the looked-up public address, judges the local cache, picks the
//! record set that is already published, builds the atomic change that
//! replaces it, and sequences the remote calls of a whole run.

pub mod address;
pub mod cache;
pub mod records;
pub mod session;
pub mod text;
pub mod workflow;
