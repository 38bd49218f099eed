//! Pins and re-resolves dependency versions across a tree of independently
//! version-controlled repositories.
//!
//! The library holds the verified core: the lock-entry codec, the
//! version-tag resolution algorithm, the lock resolver, the generate action,
//! and the batch reconciliation engine. The version-control backend is
//! modeled by an in-memory source ([`git::Git`]); driving a real external
//! backend is left to unverified callers, which reuse the same decision
//! functions on plain values.

pub mod cmd;
pub mod entry;
pub mod git;
pub mod strutil;
