//! Core of a time-boxed focus session: for a fixed duration, only
//! applications on an explicit allow-list may hold the foreground; any other
//! foreground application is detected and forcibly terminated.
//!
//! This crate holds the verified logic: resolving raw process descriptors to
//! canonical identities, allow-list membership, the session clock's state
//! machine, the per-tick enforcement decision, and the bookkeeping of
//! termination outcomes. The platform queries themselves (asking the OS for
//! the frontmost process, enumerating and signalling processes) are left to
//! the embedding program, which feeds their raw output into these functions.

pub mod allowlist;
pub mod digits;
pub mod enforce;
pub mod identity;
pub mod session;
pub mod terminate;
pub mod text;
