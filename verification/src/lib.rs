//! Server-side authentication and session-persistence core.
//!
//! The crate covers two coupled responsibilities:
//!
//! - credential lifecycle: validating username/password shape, hashing and
//!   verifying passwords, enforcing username uniqueness, and producing an
//!   authenticated principal;
//! - session persistence: an expiring key-value store for opaque session
//!   payloads, with an upsert `save`, an expiry-filtered `load`, `delete`,
//!   and a sweep that removes every expired row.
//!
//! Password hashing itself is delegated to an outside hasher behind a small
//! trusted boundary; everything around it — the validation rules, the account
//! table with its uniqueness invariant, the sign-up/login state machine and
//! the session store — is verified. Network transport, the backing relational
//! database and the process entrypoints are adapters outside this crate.

/// The account table.
pub mod account;
/// Password hashing and verification.
pub mod auth;
/// The periodic expired-row sweep.
pub mod reaper;
/// The expiring session store.
pub mod session;
/// The sign-up/login state machine.
pub mod state;
/// Username/password shape validation.
pub mod validate;

pub use validate::ValidationRules;
pub use validate::Validated;
