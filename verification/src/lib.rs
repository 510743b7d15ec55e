//! Verified core of a local chat backend.
//!
//! The library models the persistence layer of a desktop chat application:
//! a store of conversations and append-only messages with validation and
//! cascade deletion, a write-through cache for one API key, identifier
//! generation, the database schema, and the secret-vault salt and
//! key-derivation flow.  The surrounding application performs the actual
//! file, database and window I/O and hands this library plain values.

pub mod db;
pub mod encoding;
pub mod ids;
pub mod settings;
pub mod vault;
pub mod shortcut;
pub mod store;
